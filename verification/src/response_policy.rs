//! How long a reply may be, by how much audio still waits to be played.

use crate::text;
use vstd::prelude::*;

verus! {

/// How many tokens a reply may take, and how terse it is asked to be.
#[derive(Clone, Copy)]
pub struct ResponseBudget {
    pub max_tokens: u32,
    pub mode: &'static str,
}

pub open spec fn at_most(n: u32, limit: u32) -> u32 {
    if n < limit {
        n
    } else {
        limit
    }
}

/// The tokens that a backlog leaves.
pub open spec fn budget_tokens(
    max_tokens: u32,
    backlog_ms: u64,
    low_water_ms: u64,
    high_water_ms: u64,
) -> u32 {
    if backlog_ms >= high_water_ms {
        at_most(max_tokens, 24)
    } else if backlog_ms >= low_water_ms {
        at_most(max_tokens, 40)
    } else {
        max_tokens
    }
}

/// The name of how terse a reply is asked to be.
pub open spec fn budget_mode(backlog_ms: u64, low_water_ms: u64, high_water_ms: u64) -> Seq<char> {
    if backlog_ms >= high_water_ms {
        "very_low"@
    } else if backlog_ms >= low_water_ms {
        "low"@
    } else {
        "normal"@
    }
}

/// The budget that a backlog leaves.
pub fn response_budget(
    max_tokens: u32,
    backlog_ms: u64,
    low_water_ms: u64,
    high_water_ms: u64,
) -> (res: ResponseBudget)
    ensures
        res.max_tokens == budget_tokens(max_tokens, backlog_ms, low_water_ms, high_water_ms),
        res.mode@ == budget_mode(backlog_ms, low_water_ms, high_water_ms),
{
    if backlog_ms >= high_water_ms {
        ResponseBudget {
            max_tokens: if max_tokens < 24 {
                max_tokens
            } else {
                24
            },
            mode: "very_low",
        }
    } else if backlog_ms >= low_water_ms {
        ResponseBudget {
            max_tokens: if max_tokens < 40 {
                max_tokens
            } else {
                40
            },
            mode: "low",
        }
    } else {
        ResponseBudget { max_tokens, mode: "normal" }
    }
}

/// The instructions of a reply: the base, and how many words it may take.
pub open spec fn budget_instructions(
    base: Seq<char>,
    mode: Seq<char>,
    backlog_ms: nat,
) -> Seq<char> {
    if mode == "very_low"@ {
        base + " Backlog is "@ + text::decimal(backlog_ms)
            + "ms. Use at most 6 words. Prefer a direct question. Stop immediately after the question."@
    } else if mode == "low"@ {
        base + " Backlog is "@ + text::decimal(backlog_ms)
            + "ms. Use at most 10 words. One simple sentence only."@
    } else {
        base
            + " Use at most 14 words. One sentence. Stop as soon as the next user action is clear."@
    }
}

/// The instructions of a reply within a budget.
pub fn response_instructions_for_budget(
    base_instructions: &str,
    budget: ResponseBudget,
    backlog_ms: u64,
) -> (res: String)
    ensures
        res@ == budget_instructions(base_instructions@, budget.mode@, backlog_ms as nat),
{
    let mut res = base_instructions.to_owned();
    if text::same_text(budget.mode, "very_low") {
        res.append(" Backlog is ");
        res.append(text::decimal_text(backlog_ms).as_str());
        res.append(
            "ms. Use at most 6 words. Prefer a direct question. Stop immediately after the question.",
        );
    } else if text::same_text(budget.mode, "low") {
        res.append(" Backlog is ");
        res.append(text::decimal_text(backlog_ms).as_str());
        res.append("ms. Use at most 10 words. One simple sentence only.");
    } else {
        res.append(
            " Use at most 14 words. One sentence. Stop as soon as the next user action is clear.",
        );
    }
    res
}

/// A greater backlog never leaves more tokens, and none leaves more than the
/// most that a reply may take.
pub proof fn law_backlog_never_widens_budget(
    max_tokens: u32,
    less: u64,
    more: u64,
    low_water_ms: u64,
    high_water_ms: u64,
)
    requires
        less <= more,
    ensures
        budget_tokens(max_tokens, more, low_water_ms, high_water_ms) <= budget_tokens(
            max_tokens,
            less,
            low_water_ms,
            high_water_ms,
        ) <= max_tokens,
{
}

/// The backlog leaves a reply all its tokens below both marks, forty at most
/// from the low mark on and twenty-four at most from the high mark on, and says
/// so. Where the marks stand the wrong way round, the high one decides.
pub proof fn law_budget_goes_by_backlog(
    max_tokens: u32,
    backlog_ms: u64,
    low_water_ms: u64,
    high_water_ms: u64,
)
    ensures
        ({
            let tokens = budget_tokens(max_tokens, backlog_ms, low_water_ms, high_water_ms);
            let mode = budget_mode(backlog_ms, low_water_ms, high_water_ms);
            &&& backlog_ms < low_water_ms && backlog_ms < high_water_ms ==> tokens == max_tokens
                && mode == "normal"@
            &&& low_water_ms <= backlog_ms < high_water_ms ==> mode == "low"@ && tokens <= 40 && (
            tokens == 40 || tokens == max_tokens)
            &&& high_water_ms <= backlog_ms ==> mode == "very_low"@ && tokens <= 24 && (tokens
                == 24 || tokens == max_tokens)
            &&& tokens <= max_tokens
            &&& max_tokens <= 24 ==> tokens == max_tokens
        }),
{
}

/// The instructions begin with the base as it is, and what follows does not
/// depend on it. A long backlog is told in milliseconds, an ordinary one is not.
/// Six words are allowed at a very low budget, ten at a low one and fourteen
/// otherwise.
pub proof fn law_instructions_tell_the_budget(
    base: Seq<char>,
    mode: Seq<char>,
    backlog_ms: nat,
    other_ms: nat,
)
    ensures
        ({
            let told = budget_instructions(base, mode, backlog_ms);
            let backlog = " Backlog is "@ + text::decimal(backlog_ms);
            let n = (base + backlog).len() as int;
            &&& text::starts_with(told, base)
            &&& told == base + budget_instructions(Seq::empty(), mode, backlog_ms)
            &&& mode == "very_low"@ || mode == "low"@ ==> text::starts_with(told, base + backlog)
            &&& mode == "very_low"@ || mode == "low"@ ==> told.skip(n) == budget_instructions(
                base,
                mode,
                other_ms,
            ).skip((base + " Backlog is "@ + text::decimal(other_ms)).len() as int)
            &&& mode != "very_low"@ && mode != "low"@ ==> told == budget_instructions(
                base,
                mode,
                other_ms,
            )
            &&& mode == "very_low"@ ==> text::contains(told, "Use at most 6 words."@)
            &&& mode == "low"@ ==> text::contains(told, "Use at most 10 words."@)
            &&& mode != "very_low"@ && mode != "low"@ ==> text::contains(
                told,
                "Use at most 14 words."@,
            )
        }),
{
    reveal_strlit("very_low");
    reveal_strlit("low");
    assert("very_low"@.len() == 8);
    assert("low"@.len() == 3);
    let none = Seq::<char>::empty();
    let told = budget_instructions(base, mode, backlog_ms);
    let backlog = " Backlog is "@ + text::decimal(backlog_ms);
    let other = " Backlog is "@ + text::decimal(other_ms);
    let very_low =
        "ms. Use at most 6 words. Prefer a direct question. Stop immediately after the question."@;
    let low = "ms. Use at most 10 words. One simple sentence only."@;
    let normal =
        " Use at most 14 words. One sentence. Stop as soon as the next user action is clear."@;
    assert(told =~= base + budget_instructions(none, mode, backlog_ms));
    let rest = budget_instructions(none, mode, backlog_ms);
    assert(text::starts_with(told, base)) by {
        text::law_holds_its_parts(none, base, rest);
    }
    if mode == "very_low"@ || mode == "low"@ {
        let end = if mode == "very_low"@ {
            very_low
        } else {
            low
        };
        assert(told =~= (base + backlog) + end);
        text::law_holds_its_parts(none, base + backlog, end);
        let told_other = budget_instructions(base, mode, other_ms);
        assert(told_other =~= (base + other) + end);
        assert(told.skip((base + backlog).len() as int) =~= end);
        assert(told_other.skip((base + other).len() as int) =~= end);
        assert(base + " Backlog is "@ + text::decimal(other_ms) =~= base + other);
    }
    if mode == "very_low"@ {
        reveal_strlit(
            "ms. Use at most 6 words. Prefer a direct question. Stop immediately after the question.",
        );
        reveal_strlit("Use at most 6 words.");
        let words = "Use at most 6 words."@;
        assert(very_low.subrange(4, 24) =~= words);
        assert(told =~= (base + backlog + very_low.take(4)) + words + very_low.skip(24));
        text::law_holds_its_parts(base + backlog + very_low.take(4), words, very_low.skip(24));
    } else if mode == "low"@ {
        reveal_strlit("ms. Use at most 10 words. One simple sentence only.");
        reveal_strlit("Use at most 10 words.");
        let words = "Use at most 10 words."@;
        assert(low.subrange(4, 25) =~= words);
        assert(told =~= (base + backlog + low.take(4)) + words + low.skip(25));
        text::law_holds_its_parts(base + backlog + low.take(4), words, low.skip(25));
    } else {
        reveal_strlit(
            " Use at most 14 words. One sentence. Stop as soon as the next user action is clear.",
        );
        reveal_strlit("Use at most 14 words.");
        let words = "Use at most 14 words."@;
        assert(normal.subrange(1, 22) =~= words);
        assert(told =~= (base + normal.take(1)) + words + normal.skip(22));
        text::law_holds_its_parts(base + normal.take(1), words, normal.skip(22));
    }
}

/// A budget never allows more than is set, names how terse it is, and leaves
/// everything below both marks.
pub proof fn law_response_budget(
    max_tokens: u32,
    backlog_ms: u64,
    low_water_ms: u64,
    high_water_ms: u64,
    res: ResponseBudget,
)
    requires
        call_ensures(response_budget, (max_tokens, backlog_ms, low_water_ms, high_water_ms), res),
    ensures
        res.max_tokens <= max_tokens,
        backlog_ms < low_water_ms && backlog_ms < high_water_ms ==> res.max_tokens == max_tokens
            && res.mode@ == "normal"@,
        backlog_ms >= high_water_ms ==> res.max_tokens <= 24 && res.mode@ == "very_low"@,
        low_water_ms <= backlog_ms < high_water_ms ==> res.max_tokens <= 40 && res.mode@ == "low"@,
        res.max_tokens == max_tokens || res.max_tokens == 24 && backlog_ms >= high_water_ms
            || res.max_tokens == 40 && low_water_ms <= backlog_ms < high_water_ms,
{
}

} // verus!
