//! Settings read from the environment of the process.

use crate::text;
use vstd::prelude::*;

verus! {

/// `str::to_lowercase`: the text that the Unicode lower-case mapping gives.
pub uninterp spec fn unicode_lower(s: Seq<char>) -> Seq<char>;

/// `str::to_lowercase`: the result depends on the text alone, and of a text in
/// ASCII it is the text with its letters in lower case.
#[verifier::external_body]
pub(crate) fn to_lowercase(s: &str) -> (res: String)
    ensures
        res@ == unicode_lower(s@),
        vstd::utf8::is_ascii_chars(s@) ==> res@ == text::lower(s@),
{
    s.to_lowercase()
}

/// The variables of the environment, each with its value.
pub struct Environment {
    pub vars: Vec<(String, String)>,
}

impl View for Environment {
    type V = Seq<(Seq<char>, Seq<char>)>;

    open spec fn view(&self) -> Seq<(Seq<char>, Seq<char>)> {
        self.vars@.map_values(|var: (String, String)| (var.0@, var.1@))
    }
}

/// The value of the first variable with this name.
pub open spec fn lookup(vars: Seq<(Seq<char>, Seq<char>)>, name: Seq<char>) -> Option<Seq<char>>
    decreases vars.len(),
{
    if vars.len() == 0 {
        None
    } else if vars[0].0 == name {
        Some(vars[0].1)
    } else {
        lookup(vars.drop_first(), name)
    }
}

/// The value of a variable, or `default` where it is not set.
pub open spec fn value_or(
    vars: Seq<(Seq<char>, Seq<char>)>,
    name: Seq<char>,
    default: Seq<char>,
) -> Seq<char> {
    match lookup(vars, name) {
        Some(value) => value,
        None => default,
    }
}

/// The number up to `max` that a variable spells, or `default`.
pub open spec fn number_or(
    vars: Seq<(Seq<char>, Seq<char>)>,
    name: Seq<char>,
    max: nat,
    default: nat,
) -> nat {
    match lookup(vars, name) {
        Some(value) => match text::parsed(value, max) {
            Some(n) => n,
            None => default,
        },
        None => default,
    }
}

/// The value of a variable that holds more than white space.
pub open spec fn nonblank(vars: Seq<(Seq<char>, Seq<char>)>, name: Seq<char>) -> Option<Seq<char>> {
    match lookup(vars, name) {
        Some(value) => if text::trimmed(value).len() > 0 {
            Some(value)
        } else {
            None
        },
        None => None,
    }
}

/// What a switch is set to: nothing for a word that is neither yes nor no.
pub open spec fn switch_of(value: Seq<char>) -> Option<bool> {
    let low = text::lower(value);
    if low == "1"@ || low == "true"@ || low == "yes"@ || low == "on"@ {
        Some(true)
    } else if low == "0"@ || low == "false"@ || low == "no"@ || low == "off"@ {
        Some(false)
    } else {
        None
    }
}

/// What a variable switches, or `default`.
pub open spec fn switch_or(
    vars: Seq<(Seq<char>, Seq<char>)>,
    name: Seq<char>,
    default: bool,
) -> bool {
    match lookup(vars, name) {
        Some(value) => match switch_of(value) {
            Some(on) => on,
            None => default,
        },
        None => default,
    }
}

/// The entries of a list between commas: trimmed, and only those that are not
/// empty.
pub open spec fn list_entries(value: Seq<char>) -> Seq<Seq<char>> {
    text::split(value, text::only(',')).map_values(|s: Seq<char>| text::trimmed(s)).filter(
        text::filled(),
    )
}

/// The list that a variable holds.
pub open spec fn list_of(vars: Seq<(Seq<char>, Seq<char>)>, name: Seq<char>) -> Seq<Seq<char>> {
    match lookup(vars, name) {
        Some(value) => list_entries(value),
        None => Seq::empty(),
    }
}

impl Environment {
    /// The value of a variable.
    pub fn var(&self, name: &str) -> (res: Option<String>)
        ensures
            res is Some <==> lookup(self@, name@) is Some,
            res matches Some(value) ==> lookup(self@, name@) == Some(value@),
    {
        let n: usize = self.vars.len();
        assert(self@.skip(0) =~= self@);
        for i in 0..n
            invariant
                n == self.vars@.len(),
                lookup(self@, name@) == lookup(self@.skip(i as int), name@),
        {
            proof {
                assert(self@.len() == n);
                assert(self@.skip(i as int)[0] == self@[i as int]);
                assert(self@.skip(i as int).drop_first() =~= self@.skip(i + 1));
            }
            if text::same_text(self.vars[i].0.as_str(), name) {
                return Some(self.vars[i].1.clone());
            }
        }
        assert(self@.skip(n as int).len() == 0);
        None
    }

    /// The value of a variable, or `default` where it is not set.
    pub fn var_or(&self, name: &str, default: &str) -> (res: String)
        ensures
            res@ == value_or(self@, name@, default@),
    {
        match self.var(name) {
            Some(value) => value,
            None => default.to_owned(),
        }
    }
}

/// The number that a variable spells, or `default`.
pub fn env_u32(env: &Environment, name: &str, default: u32) -> (res: u32)
    ensures
        res == number_or(env@, name@, u32::MAX as nat, default as nat),
{
    match env.var(name) {
        Some(value) => match text::parse_u32(value.as_str()) {
            Some(n) => n,
            None => default,
        },
        None => default,
    }
}

/// The number that a variable spells, or `default`.
pub fn env_u64(env: &Environment, name: &str, default: u64) -> (res: u64)
    ensures
        res == number_or(env@, name@, u64::MAX as nat, default as nat),
{
    match env.var(name) {
        Some(value) => match text::parse_u64(value.as_str()) {
            Some(n) => n,
            None => default,
        },
        None => default,
    }
}

/// The value of a variable that holds more than white space.
pub fn env_nonempty(env: &Environment, name: &str) -> (res: Option<String>)
    ensures
        res is Some <==> nonblank(env@, name@) is Some,
        res matches Some(value) ==> nonblank(env@, name@) == Some(value@),
{
    match env.var(name) {
        Some(value) => if text::trim(value.as_str()).as_str().is_empty() {
            None
        } else {
            Some(value)
        },
        None => None,
    }
}

/// What a variable switches, or `default`.
pub fn env_bool(env: &Environment, name: &str, default: bool) -> (res: bool)
    ensures
        res == switch_or(env@, name@, default),
{
    match env.var(name) {
        Some(value) => {
            let low = text::to_ascii_lowercase(value.as_str());
            let low = low.as_str();
            if text::same_text(low, "1") || text::same_text(low, "true") || text::same_text(
                low,
                "yes",
            ) || text::same_text(low, "on") {
                true
            } else if text::same_text(low, "0") || text::same_text(low, "false")
                || text::same_text(low, "no") || text::same_text(low, "off") {
                false
            } else {
                default
            }
        },
        None => default,
    }
}

/// The list that a variable holds.
pub fn env_list(env: &Environment, name: &str) -> (res: Vec<String>)
    ensures
        text::texts(res@) == list_of(env@, name@),
{
    let mut res: Vec<String> = Vec::new();
    assert(text::texts(res@) =~= Seq::<Seq<char>>::empty());
    match env.var(name) {
        Some(value) => {
            let parts = text::split_char(value.as_str(), ',');
            let n: usize = parts.len();
            let ghost all = text::split(value@, text::only(',')).map_values(
                |s: Seq<char>| text::trimmed(s),
            );
            proof {
                reveal(Seq::filter);
                assert(all.take(0) =~= Seq::<Seq<char>>::empty());
            }
            for i in 0..n
                invariant
                    n == parts@.len(),
                    text::texts(parts@) == text::split(value@, text::only(',')),
                    all == text::split(value@, text::only(',')).map_values(
                        |s: Seq<char>| text::trimmed(s),
                    ),
                    text::texts(res@) == all.take(i as int).filter(text::filled()),
            {
                let part = text::trim(parts[i].as_str());
                proof {
                    reveal(Seq::filter);
                    assert(text::texts(parts@)[i as int] == parts@[i as int]@);
                    assert(all.len() == n);
                    assert(all.take(i + 1).drop_last() =~= all.take(i as int));
                    assert(all.take(i + 1).last() == part@);
                    assert(text::filled()(part@) == (part@.len() > 0));
                }
                if !part.as_str().is_empty() {
                    let ghost old_res = res@;
                    let ghost held = part@;
                    res.push(part);
                    assert(text::texts(res@) =~= text::texts(old_res).push(held));
                }
            }
            assert(all.take(n as int) =~= all);
        },
        None => {},
    }
    res
}

// ---------------------------------------------------------------------------
// Laws
// ---------------------------------------------------------------------------

/// A variable has the value it was first given, as it stands; one that was not
/// given has none.
pub proof fn law_variables_are_found(vars: Seq<(Seq<char>, Seq<char>)>, name: Seq<char>, i: int)
    requires
        0 <= i <= vars.len(),
        forall|j: int| 0 <= j < i ==> #[trigger] vars[j].0 != name,
        i < vars.len() ==> vars[i].0 == name,
    ensures
        lookup(vars, name) == if i < vars.len() {
            Some(vars[i].1)
        } else {
            None
        },
    decreases vars.len(),
{
    if vars.len() > 0 && i > 0 {
        assert(vars[0].0 != name);
        let rest = vars.drop_first();
        assert forall|j: int| 0 <= j < i - 1 implies #[trigger] rest[j].0 != name by {
            assert(vars[j + 1].0 != name);
        }
        law_variables_are_found(rest, name, i - 1);
    }
}

/// A variable that is given is taken as it stands, and one that is not is taken
/// by its default.
pub proof fn law_default_values(
    vars: Seq<(Seq<char>, Seq<char>)>,
    name: Seq<char>,
    value: Seq<char>,
    default: Seq<char>,
)
    ensures
        lookup(vars, name) == Some(value) ==> value_or(vars, name, default) == value,
        lookup(vars, name) is None ==> value_or(vars, name, default) == default,
{
}

/// A number is taken where the variable spells one that fits, and by its default
/// otherwise: where the variable is not given, spells none or spells one that is
/// too large.
pub proof fn law_default_numbers(
    vars: Seq<(Seq<char>, Seq<char>)>,
    name: Seq<char>,
    n: nat,
    max: nat,
    default: nat,
)
    ensures
        lookup(vars, name) == Some(text::decimal(n)) ==> number_or(vars, name, max, default) == if n
            <= max {
            n
        } else {
            default
        },
        lookup(vars, name) is None ==> number_or(vars, name, max, default) == default,
        lookup(vars, name) matches Some(value) ==> text::parsed(value, max) is None ==> number_or(
            vars,
            name,
            max,
            default,
        ) == default,
        lookup(vars, name) matches Some(value) ==> text::parsed(value, max) == Some(n)
            ==> number_or(vars, name, max, default) == n,
{
    if n <= max {
        text::law_decimal_round_trip(n, max);
    } else {
        text::lemma_decimal(n);
        assert(text::is_digit(text::decimal(n)[0]));
    }
}

/// A variable that holds nothing but white space counts as not given; any other
/// is taken as it stands.
pub proof fn law_blank_values(vars: Seq<(Seq<char>, Seq<char>)>, name: Seq<char>, value: Seq<char>)
    ensures
        lookup(vars, name) is None ==> nonblank(vars, name) is None,
        lookup(vars, name) == Some(value) && (forall|i: int|
            0 <= i < value.len() ==> text::is_white(#[trigger] value[i])) ==> nonblank(
            vars,
            name,
        ) is None,
        forall|i: int|
            lookup(vars, name) == Some(value) && 0 <= i < value.len() && !text::is_white(
                #[trigger] value[i],
            ) ==> nonblank(vars, name) == Some(value),
{
    text::law_blank(value);
}

/// A switch is on or off by one of four words each, in either case; by any other
/// word, and where it is not given, it stands as it does by default.
pub proof fn law_switches(vars: Seq<(Seq<char>, Seq<char>)>, name: Seq<char>, default: bool)
    ensures
        lookup(vars, name) is None ==> switch_or(vars, name, default) == default,
        lookup(vars, name) matches Some(value) ==> {
            let low = text::lower(value);
            let on = low == "1"@ || low == "true"@ || low == "yes"@ || low == "on"@;
            let off = low == "0"@ || low == "false"@ || low == "no"@ || low == "off"@;
            &&& on ==> switch_or(vars, name, default) == true
            &&& off ==> switch_or(vars, name, default) == false
            &&& !on && !off ==> switch_or(vars, name, default) == default
        },
{
    reveal_strlit("1");
    reveal_strlit("true");
    reveal_strlit("yes");
    reveal_strlit("on");
    reveal_strlit("0");
    reveal_strlit("false");
    reveal_strlit("no");
    reveal_strlit("off");
    assert("1"@.len() == 1 && "1"@[0] == '1');
    assert("0"@.len() == 1 && "0"@[0] == '0');
    assert("true"@.len() == 4);
    assert("false"@.len() == 5);
    assert("yes"@.len() == 3 && "yes"@[0] == 'y');
    assert("off"@.len() == 3 && "off"@[0] == 'o');
    assert("on"@.len() == 2 && "on"@[0] == 'o');
    assert("no"@.len() == 2 && "no"@[0] == 'n');
}

/// A list is what stands between the commas, in order, without white space around
/// it and without what is blank.
pub proof fn law_lists_are_read(entry: Seq<char>, rest: Seq<char>)
    requires
        !entry.contains(','),
    ensures
        ({
            let read = if text::trimmed(entry).len() > 0 {
                seq![text::trimmed(entry)]
            } else {
                Seq::empty()
            };
            &&& list_entries(entry) == read
            &&& list_entries(entry.push(',') + rest) == read + list_entries(rest)
        }),
{
    let sep = text::only(',');
    let trim = |s: Seq<char>| text::trimmed(s);
    assert forall|i: int| 0 <= i < entry.len() implies !sep(#[trigger] entry[i]) by {}
    text::lemma_split_whole(entry, sep);
    let one = seq![entry].map_values(trim);
    assert(one =~= seq![text::trimmed(entry)]);
    assert(one.filter(text::filled()) =~= if text::trimmed(entry).len() > 0 {
        seq![text::trimmed(entry)]
    } else {
        Seq::empty()
    }) by {
        reveal_with_fuel(Seq::filter, 2);
        assert(one.drop_last() =~= Seq::<Seq<char>>::empty());
    }
    let closed = entry.push(',');
    assert(closed.drop_last() =~= entry);
    text::lemma_split_append(closed, rest, sep);
    assert(text::split(closed, sep) =~= seq![entry, Seq::<char>::empty()]);
    assert(text::split(closed, sep).drop_last() =~= seq![entry]);
    assert(Seq::<char>::empty() + rest =~= rest);
    let tail = text::split(rest, sep).map_values(trim);
    assert((seq![entry] + text::split(rest, sep)).map_values(trim) =~= one + tail);
    Seq::filter_distributes_over_add(one, tail, text::filled());
}

/// A list that is not given is empty, and one that is given is read.
pub proof fn law_default_lists(
    vars: Seq<(Seq<char>, Seq<char>)>,
    name: Seq<char>,
    value: Seq<char>,
)
    ensures
        lookup(vars, name) is None ==> list_of(vars, name).len() == 0,
        lookup(vars, name) == Some(value) ==> list_of(vars, name) == list_entries(value),
{
}

} // verus!
