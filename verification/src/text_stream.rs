//! The reply of the language model as it comes in: a stream of lines, each with
//! an event.

use crate::json;
use crate::json::JsonTree;
use crate::text;
use vstd::prelude::*;

verus! {

/// Bytes as text, with a replacement character for what is no UTF-8.
pub uninterp spec fn lossy_text(bytes: Seq<u8>) -> Seq<char>;

/// `String::from_utf8_lossy`: the text depends on the bytes alone, and is the
/// text they encode where they are UTF-8.
#[verifier::external_body]
fn from_utf8_lossy(bytes: &[u8]) -> (res: String)
    ensures
        res@ == lossy_text(bytes@),
        vstd::utf8::valid_utf8(bytes@) ==> res@ == vstd::utf8::decode_utf8(bytes@),
{
    String::from_utf8_lossy(bytes).into_owned()
}

// ---------------------------------------------------------------------------
// Lines
// ---------------------------------------------------------------------------

/// What a line carries: what follows `data:`, unless it is empty or the end of
/// the stream.
pub open spec fn data_in(line: Seq<char>) -> Option<Seq<char>> {
    let trimmed = text::trimmed(line);
    if text::starts_with(trimmed, "data:"@) {
        let data = text::trimmed(trimmed.skip(5));
        if data.len() == 0 || data == "[DONE]"@ {
            None
        } else {
            Some(data)
        }
    } else {
        None
    }
}

/// What a line carries.
pub fn line_data(line: &str) -> (res: Option<String>)
    ensures
        text::text_view(res) == data_in(line@),
{
    let trimmed = text::trim(line);
    proof {
        reveal_strlit("data:");
    }
    if !text::starts_with_text(trimmed.as_str(), "data:") {
        return None;
    }
    let chars = text::chars_of(trimmed.as_str());
    let n: usize = chars.len();
    let rest = text::copy_range(chars.as_slice(), 5, n);
    assert(rest@ =~= trimmed@.skip(5));
    let data = text::text_of(text::trim_chars(rest.as_slice()).as_slice());
    if data.as_str().is_empty() || text::same_text(data.as_str(), "[DONE]") {
        return None;
    }
    Some(data)
}

/// An event of the language model.
pub ghost enum TextNews {
    Delta { text: Seq<char> },
    Completed,
    Failed { tree: JsonTree },
    Other,
}

/// What an event says, by its `type`.
pub open spec fn text_news_in(tree: JsonTree) -> TextNews {
    match tree.text_at("type"@) {
        Some(kind) => if kind == "response.output_text.delta"@ {
            match tree.text_at("delta"@) {
                Some(text) => TextNews::Delta { text },
                None => TextNews::Other,
            }
        } else if kind == "response.completed"@ {
            TextNews::Completed
        } else if kind == "error"@ || kind == "response.failed"@ {
            TextNews::Failed { tree }
        } else {
            TextNews::Other
        },
        None => TextNews::Other,
    }
}

/// What a line says. One whose data is no JSON says nothing.
pub open spec fn line_news(line: Seq<char>) -> TextNews {
    match data_in(line) {
        Some(data) => match json::json_of_text(data) {
            Some(tree) => text_news_in(tree),
            None => TextNews::Other,
        },
        None => TextNews::Other,
    }
}

/// An event of the language model.
pub enum TextEvent {
    Delta { text: String },
    Completed,
    /// The reply has failed, with what the model said of it.
    Failed { event: String },
    Other,
}

impl TextEvent {
    /// This is what the event says.
    pub open spec fn says(self, news: TextNews) -> bool {
        match (self, news) {
            (TextEvent::Delta { text }, TextNews::Delta { text: said }) => text@ == said,
            (TextEvent::Completed, TextNews::Completed) => true,
            (TextEvent::Failed { event }, TextNews::Failed { tree }) => event@
                == json::json_text(tree),
            (TextEvent::Other, TextNews::Other) => true,
            _ => false,
        }
    }
}

/// What an event says, by its `type`.
pub fn text_event(value: &serde_json::Value) -> (res: TextEvent)
    ensures
        res.says(text_news_in(json::json_tree(*value))),
{
    let kind = match json::text_at(value, "type") {
        Some(kind) => kind,
        None => {
            return TextEvent::Other;
        },
    };
    let kind = kind.as_str();
    if text::same_text(kind, "response.output_text.delta") {
        match json::text_at(value, "delta") {
            Some(text) => TextEvent::Delta { text },
            None => TextEvent::Other,
        }
    } else if text::same_text(kind, "response.completed") {
        TextEvent::Completed
    } else if text::same_text(kind, "error") || text::same_text(kind, "response.failed") {
        TextEvent::Failed { event: json::json_string(value) }
    } else {
        TextEvent::Other
    }
}

/// What a line says.
pub fn read_line(line: &str) -> (res: TextEvent)
    ensures
        res.says(line_news(line@)),
{
    match line_data(line) {
        Some(data) => match json::parse_json(data.as_str()) {
            Some(value) => text_event(&value),
            None => TextEvent::Other,
        },
        None => TextEvent::Other,
    }
}

// ---------------------------------------------------------------------------
// The reply
// ---------------------------------------------------------------------------

/// Enough was said for a turn: six words and the end of a sentence, or
/// fourteen words.
pub open spec fn enough_said(s: Seq<char>) -> bool {
    let trimmed = text::trimmed(s);
    let n = text::words(trimmed).len();
    n >= 6 && (text::ends_with_char(trimmed, '?') || text::ends_with_char(trimmed, '.')
        || text::ends_with_char(trimmed, '!') || n >= 14)
}

/// Whether enough was said for a turn.
pub fn completed_short_voice_turn(text: &str) -> (res: bool)
    ensures
        res == enough_said(text@),
{
    let trimmed = text::trim(text);
    let trimmed = trimmed.as_str();
    let n: usize = text::word_count(trimmed);
    n >= 6 && (text::ends_with(trimmed, '?') || text::ends_with(trimmed, '.') || text::ends_with(
        trimmed,
        '!',
    ) || n >= 14)
}

/// How far a reply has come.
pub ghost enum Reply {
    /// There may be more.
    Open { output: Seq<char> },
    Done { output: Seq<char> },
    Failed { output: Seq<char>, tree: JsonTree },
}

impl Reply {
    /// What was said so far.
    pub open spec fn output(self) -> Seq<char> {
        match self {
            Reply::Open { output } => output,
            Reply::Done { output } => output,
            Reply::Failed { output, .. } => output,
        }
    }
}

/// The reply after one more event.
pub open spec fn with_news(output: Seq<char>, news: TextNews) -> Reply {
    match news {
        TextNews::Delta { text } => if enough_said(output + text) {
            Reply::Done { output: output + text }
        } else {
            Reply::Open { output: output + text }
        },
        TextNews::Completed => Reply::Done { output },
        TextNews::Failed { tree } => Reply::Failed { output, tree },
        TextNews::Other => Reply::Open { output },
    }
}

/// The reply after more lines: those behind its end are not read.
pub open spec fn with_lines(output: Seq<char>, lines: Seq<Seq<char>>) -> Reply
    decreases lines.len(),
{
    if lines.len() == 0 {
        Reply::Open { output }
    } else {
        match with_lines(output, lines.drop_last()) {
            Reply::Open { output: before } => with_news(before, line_news(lines.last())),
            ended => ended,
        }
    }
}

/// The line that more text leaves unfinished.
pub open spec fn rest_after(buffer: Seq<char>, more: Seq<char>) -> Seq<char> {
    text::split(buffer + more, text::only('\n')).last()
}

/// The reply after more text.
pub open spec fn reply_after(buffer: Seq<char>, output: Seq<char>, more: Seq<char>) -> Reply {
    with_lines(output, text::split(buffer + more, text::only('\n')).drop_last())
}

/// How far a reply has come.
pub enum Progress {
    Open,
    Done,
    /// The reply has failed, with what the model said of it.
    Failed { event: String },
}

impl Progress {
    /// This is how far the reply has come.
    pub open spec fn says(self, reply: Reply) -> bool {
        match (self, reply) {
            (Progress::Open, Reply::Open { .. }) => true,
            (Progress::Done, Reply::Done { .. }) => true,
            (Progress::Failed { event }, Reply::Failed { tree, .. }) => event@ == json::json_text(
                tree,
            ),
            _ => false,
        }
    }
}

/// The reply of the language model as it comes in.
pub struct TextStream {
    /// A line that is not finished.
    pub buffer: String,
    /// What was said so far.
    pub output: String,
}

proof fn lemma_ended_stays(output: Seq<char>, lines: Seq<Seq<char>>, n: int)
    requires
        0 <= n <= lines.len(),
        !(with_lines(output, lines.take(n)) is Open),
    ensures
        with_lines(output, lines) == with_lines(output, lines.take(n)),
    decreases lines.len() - n,
{
    if n == lines.len() {
        assert(lines.take(n) =~= lines);
    } else {
        let shorter = lines.drop_last();
        assert(shorter.take(n) =~= lines.take(n));
        lemma_ended_stays(output, shorter, n);
    }
}

proof fn lemma_lines_in_two(output: Seq<char>, first: Seq<Seq<char>>, second: Seq<Seq<char>>)
    ensures
        with_lines(output, first + second) == match with_lines(output, first) {
            Reply::Open { output: before } => with_lines(before, second),
            ended => ended,
        },
    decreases second.len(),
{
    if second.len() == 0 {
        assert(first + second =~= first);
    } else {
        let shorter = second.drop_last();
        lemma_lines_in_two(output, first, shorter);
        assert((first + second).drop_last() =~= first + shorter);
        assert((first + second).last() == second.last());
    }
}

impl TextStream {
    /// A reply of which nothing has come in.
    pub fn new() -> (res: Self)
        ensures
            res.buffer@ == Seq::<char>::empty(),
            res.output@ == Seq::<char>::empty(),
    {
        TextStream { buffer: String::new(), output: String::new() }
    }

    fn take_event(&mut self, event: TextEvent, Ghost(news): Ghost<TextNews>) -> (res: Progress)
        requires
            event.says(news),
        ensures
            final(self).buffer == old(self).buffer,
            res.says(with_news(old(self).output@, news)),
            final(self).output@ == with_news(old(self).output@, news).output(),
    {
        match event {
            TextEvent::Delta { text } => {
                self.output.append(text.as_str());
                if completed_short_voice_turn(self.output.as_str()) {
                    Progress::Done
                } else {
                    Progress::Open
                }
            },
            TextEvent::Completed => Progress::Done,
            TextEvent::Failed { event } => Progress::Failed { event },
            TextEvent::Other => Progress::Open,
        }
    }

    /// Takes more text of the stream.
    pub fn push_text(&mut self, more: &str) -> (res: Progress)
        ensures
            final(self).buffer@ == rest_after(old(self).buffer@, more@),
            res.says(reply_after(old(self).buffer@, old(self).output@, more@)),
            final(self).output@ == reply_after(
                old(self).buffer@,
                old(self).output@,
                more@,
            ).output(),
    {
        let ghost said = self.output@;
        self.buffer.append(more);
        let pieces = text::split_char(self.buffer.as_str(), '\n');
        let ghost all = text::split(self.buffer@, text::only('\n'));
        let ghost lines = all.drop_last();
        let n: usize = pieces.len();
        assert(text::texts(pieces@).len() == n);
        assert(text::texts(pieces@)[n - 1] == pieces@[n - 1]@);
        self.buffer = pieces[n - 1].clone();
        assert(lines.take(0) =~= Seq::<Seq<char>>::empty());
        for i in 0..n - 1
            invariant
                n >= 1,
                n == pieces@.len(),
                text::texts(pieces@) == all,
                lines == all.drop_last(),
                self.buffer@ == all.last(),
                with_lines(said, lines.take(i as int)) == (Reply::Open { output: self.output@ }),
                all == text::split(old(self).buffer@ + more@, text::only('\n')),
                said == old(self).output@,
        {
            let event = read_line(pieces[i].as_str());
            proof {
                assert(all.len() == n);
                assert(text::texts(pieces@)[i as int] == pieces@[i as int]@);
                assert(lines.take(i + 1).drop_last() =~= lines.take(i as int));
                assert(lines.take(i + 1).last() == pieces@[i as int]@);
            }
            let progress = self.take_event(event, Ghost(line_news(pieces@[i as int]@)));
            match progress {
                Progress::Open => {},
                ended => {
                    proof {
                        lemma_ended_stays(said, lines, i + 1);
                    }
                    return ended;
                },
            }
        }
        assert(lines.take(n - 1) =~= lines);
        Progress::Open
    }

    /// Takes more bytes of the stream.
    pub fn push_bytes(&mut self, chunk: &[u8]) -> (res: Progress)
        ensures
            final(self).buffer@ == rest_after(old(self).buffer@, lossy_text(chunk@)),
            res.says(reply_after(old(self).buffer@, old(self).output@, lossy_text(chunk@))),
            final(self).output@ == reply_after(
                old(self).buffer@,
                old(self).output@,
                lossy_text(chunk@),
            ).output(),
            vstd::utf8::valid_utf8(chunk@) ==> lossy_text(chunk@) == vstd::utf8::decode_utf8(
                chunk@,
            ),
    {
        let more = from_utf8_lossy(chunk);
        self.push_text(more.as_str())
    }
}

// ---------------------------------------------------------------------------
// Laws
// ---------------------------------------------------------------------------

/// How the stream is cut does not matter: text that comes in two pieces leaves
/// the same reply and the same unfinished line as text that comes in one, unless
/// the reply ended with the first piece.
pub proof fn law_cuts_do_not_matter(
    buffer: Seq<char>,
    output: Seq<char>,
    first: Seq<char>,
    second: Seq<char>,
)
    ensures
        reply_after(buffer, output, first) matches Reply::Open { output: before } ==> {
            &&& reply_after(rest_after(buffer, first), before, second) == reply_after(
                buffer,
                output,
                first + second,
            )
            &&& rest_after(rest_after(buffer, first), second) == rest_after(buffer, first + second)
        },
        !(reply_after(buffer, output, first) is Open) ==> reply_after(
            buffer,
            output,
            first + second,
        ) == reply_after(buffer, output, first),
{
    let sep = text::only('\n');
    let head = text::split(buffer + first, sep);
    let tail = text::split(head.last() + second, sep);
    text::lemma_split_len(buffer + first, sep);
    text::lemma_split_append(buffer + first, second, sep);
    assert(buffer + (first + second) =~= buffer + first + second);
    let all = text::split(buffer + (first + second), sep);
    assert(all == head.drop_last() + tail);
    assert(all.drop_last() =~= head.drop_last() + tail.drop_last());
    lemma_lines_in_two(output, head.drop_last(), tail.drop_last());
}

proof fn lemma_kinds_differ()
    ensures
        "response.completed"@ != "response.output_text.delta"@,
        "error"@ != "response.output_text.delta"@,
        "response.failed"@ != "response.output_text.delta"@,
        "error"@ != "response.completed"@,
        "response.failed"@ != "response.completed"@,
        "type"@ != "delta"@,
{
    reveal_strlit("response.output_text.delta");
    reveal_strlit("response.completed");
    reveal_strlit("response.failed");
    reveal_strlit("error");
    reveal_strlit("type");
    reveal_strlit("delta");
    assert("response.output_text.delta"@.len() == 26);
    assert("response.completed"@.len() == 18);
    assert("response.failed"@.len() == 15);
    assert("error"@.len() == 5);
    assert("type"@.len() == 4);
    assert("delta"@.len() == 5);
}

/// An event of the kind `response.output_text.delta` says the very text that
/// stands under `delta`, whatever else the event holds, and the reply grows by
/// exactly that text.
pub proof fn law_delta_is_said_as_it_stands(
    members: Map<Seq<char>, JsonTree>,
    text: Seq<char>,
    output: Seq<char>,
)
    requires
        members.dom().contains("type"@),
        members["type"@] == JsonTree::Text("response.output_text.delta"@),
        members.dom().contains("delta"@),
        members["delta"@] == JsonTree::Text(text),
    ensures
        text_news_in(JsonTree::Object(members)) == (TextNews::Delta { text }),
        with_news(output, text_news_in(JsonTree::Object(members))).output() == output + text,
        !(with_news(output, text_news_in(JsonTree::Object(members))) is Failed),
{
}

/// The same of an event that holds its kind and its text and nothing else.
pub proof fn law_plain_delta_is_said(text: Seq<char>, output: Seq<char>)
    ensures
        ({
            let tree = json::object(
                seq![
                    ("type"@, JsonTree::Text("response.output_text.delta"@)),
                    ("delta"@, JsonTree::Text(text)),
                ],
            );
            with_news(output, text_news_in(tree)).output() == output + text
        }),
{
    lemma_kinds_differ();
    let entries = seq![
        ("type"@, JsonTree::Text("response.output_text.delta"@)),
        ("delta"@, JsonTree::Text(text)),
    ];
    json::law_object_holds_its_entries(entries, 0);
    json::law_object_holds_its_entries(entries, 1);
}

/// Only a text is said: an event of any other kind, and one whose `delta` is no
/// text, leaves what was said as it is. A reply is done when the model says that
/// it is completed, failed when it says that it failed or names an error, and
/// open otherwise.
pub proof fn law_other_events_say_nothing(tree: JsonTree, output: Seq<char>)
    requires
        tree.text_at("type"@) != Some("response.output_text.delta"@) || tree.text_at(
            "delta"@,
        ) is None,
    ensures
        ({
            let after = with_news(output, text_news_in(tree));
            let kind = tree.text_at("type"@);
            &&& after.output() == output
            &&& kind == Some("response.completed"@) <==> after is Done
            &&& kind == Some("response.failed"@) || kind == Some("error"@) <==> after is Failed
            &&& after is Failed ==> after == (Reply::Failed { output, tree })
        }),
{
    lemma_kinds_differ();
}

/// A text ends the reply when it is enough for a turn, by what was said in all,
/// and leaves it open otherwise.
pub proof fn law_text_ends_the_reply_when_enough_is_said(output: Seq<char>, text: Seq<char>)
    ensures
        ({
            let news = TextNews::Delta { text };
            let all = output + text;
            let words = text::words(text::trimmed(all)).len();
            let end = text::trimmed(all);
            &&& words >= 14 ==> with_news(output, news) == (Reply::Done { output: all })
            &&& words < 6 ==> with_news(output, news) == (Reply::Open { output: all })
            &&& 6 <= words < 14 ==> with_news(output, news) == if end.len() > 0 && (end.last()
                == '.' || end.last() == '?' || end.last() == '!') {
                Reply::Done { output: all }
            } else {
                Reply::Open { output: all }
            }
        }),
{
}

/// A line carries what follows `data:`, whatever white space stands around it
/// and before `data:`, if that is anything but the end of the stream.
pub proof fn law_line_carries_its_data(
    front: Seq<char>,
    gap: Seq<char>,
    data: Seq<char>,
    back: Seq<char>,
)
    requires
        forall|i: int| 0 <= i < front.len() ==> text::is_white(#[trigger] front[i]),
        forall|i: int| 0 <= i < gap.len() ==> text::is_white(#[trigger] gap[i]),
        forall|i: int| 0 <= i < back.len() ==> text::is_white(#[trigger] back[i]),
        data.len() > 0,
        !text::is_white(data[0]),
        !text::is_white(data.last()),
    ensures
        data_in(front + "data:"@ + gap + data + back) == if data == "[DONE]"@ {
            None
        } else {
            Some(data)
        },
{
    reveal_strlit("data:");
    let line = front + "data:"@ + gap + data + back;
    let core = "data:"@ + gap + data;
    let a = front.len() as int;
    let b = a + core.len();
    assert forall|i: int| 0 <= i < a implies #[trigger] text::white()(line[i]) by {
        assert(line[i] == front[i]);
    }
    assert forall|i: int| b <= i < line.len() implies #[trigger] text::white()(line[i]) by {
        assert(line[i] == back[i - b]);
    }
    assert(line[a] == 'd');
    assert(line[b - 1] == data.last());
    text::lemma_trim_both_at(line, text::white(), a, b);
    assert(line.subrange(a, b) =~= core);
    assert(core.subrange(0, 5) =~= "data:"@);
    let rest = core.skip(5);
    assert(rest =~= gap + data);
    assert forall|i: int| 0 <= i < gap.len() implies #[trigger] text::white()(rest[i]) by {
        assert(rest[i] == gap[i]);
    }
    assert(rest[gap.len() as int] == data[0]);
    assert(rest[rest.len() - 1] == data.last());
    text::lemma_trim_both_at(rest, text::white(), gap.len() as int, rest.len() as int);
    assert(rest.subrange(gap.len() as int, rest.len() as int) =~= data);
}

/// A line that does not begin with `data:` carries nothing, and says nothing.
pub proof fn law_other_lines_carry_nothing(line: Seq<char>)
    requires
        text::trimmed(line).len() < 5 || text::trimmed(line).take(5) != "data:"@,
    ensures
        data_in(line) is None,
        line_news(line) == TextNews::Other,
{
    reveal_strlit("data:");
    let trimmed = text::trimmed(line);
    if trimmed.len() >= 5 {
        assert(trimmed.subrange(0, 5) =~= trimmed.take(5));
    }
}

/// The texts of a reply add up: while the reply is open, what was said after
/// lines that each carry a text is what was said before and those texts, one
/// after the other, as they stand under `delta`. The text that ends the reply is
/// the last of them.
pub proof fn law_texts_add_up(
    output: Seq<char>,
    lines: Seq<Seq<char>>,
    events: Seq<Map<Seq<char>, JsonTree>>,
    texts: Seq<Seq<char>>,
    n: int,
)
    requires
        lines.len() == events.len(),
        lines.len() == texts.len(),
        0 <= n <= lines.len(),
        forall|i: int|
            #![trigger lines[i]]
            0 <= i < lines.len() ==> {
                &&& data_in(lines[i]) is Some
                &&& json::json_of_text(data_in(lines[i])->0) == Some(JsonTree::Object(events[i]))
                &&& events[i].dom().contains("type"@)
                &&& events[i]["type"@] == JsonTree::Text("response.output_text.delta"@)
                &&& events[i].dom().contains("delta"@)
                &&& events[i]["delta"@] == JsonTree::Text(texts[i])
            },
        n > 0 ==> with_lines(output, lines.take(n - 1)) is Open,
    ensures
        with_lines(output, lines.take(n)).output() == output + texts.take(n).flatten(),
        !(with_lines(output, lines.take(n)) is Failed),
        with_lines(output, lines.take(n)) is Done ==> with_lines(output, lines) == with_lines(
            output,
            lines.take(n),
        ),
    decreases n,
{
    if n == 0 {
        assert(texts.take(0).flatten() =~= Seq::<char>::empty());
        assert(output + Seq::<char>::empty() =~= output);
    } else {
        if n > 1 {
            assert(lines.take(n - 1).drop_last() =~= lines.take(n - 2));
        }
        law_texts_add_up(output, lines, events, texts, n - 1);
        assert(lines.take(n).drop_last() =~= lines.take(n - 1));
        assert(lines.take(n).last() == lines[n - 1]);
        let before = output + texts.take(n - 1).flatten();
        law_delta_is_said_as_it_stands(events[n - 1], texts[n - 1], before);
        assert(texts.take(n) =~= texts.take(n - 1).push(texts[n - 1]));
        texts.take(n - 1).lemma_flatten_push(texts[n - 1]);
        assert(before + texts[n - 1] =~= output + texts.take(n).flatten());
        if with_lines(output, lines.take(n)) is Done {
            lemma_ended_stays(output, lines, n);
        }
    }
}

/// Only whole lines are taken: what follows the last line break waits, and is
/// neither said nor lost. Text without a line break only waits.
pub proof fn law_unfinished_lines_wait(buffer: Seq<char>, output: Seq<char>, more: Seq<char>)
    requires
        !buffer.contains('\n'),
    ensures
        !rest_after(buffer, more).contains('\n'),
        !more.contains('\n') ==> rest_after(buffer, more) == buffer + more && reply_after(
            buffer,
            output,
            more,
        ) == (Reply::Open { output }),
        rest_after(buffer, more.push('\n')) == Seq::<char>::empty(),
        rest_after(buffer, more).len() <= (buffer + more).len(),
        rest_after(buffer, more) == (buffer + more).skip(
            (buffer + more).len() - rest_after(buffer, more).len(),
        ),
{
    lemma_rest_is_the_end(buffer + more);
    if !more.contains('\n') {
        assert forall|i: int| 0 <= i < (buffer + more).len() implies !text::only('\n')(
            #[trigger] (buffer + more)[i],
        ) by {
            if i < buffer.len() {
                assert((buffer + more)[i] == buffer[i]);
            } else {
                assert((buffer + more)[i] == more[i - buffer.len()]);
            }
        }
        text::lemma_split_whole(buffer + more, text::only('\n'));
        assert(Seq::<Seq<char>>::empty() =~= text::split(
            buffer + more,
            text::only('\n'),
        ).drop_last());
    }
    assert((buffer + more.push('\n')).drop_last() =~= buffer + more);
}

proof fn lemma_rest_is_the_end(s: Seq<char>)
    ensures
        ({
            let rest = text::split(s, text::only('\n')).last();
            &&& rest.len() <= s.len()
            &&& rest == s.skip(s.len() - rest.len())
            &&& !rest.contains('\n')
        }),
    decreases s.len(),
{
    if s.len() > 0 {
        let front = s.drop_last();
        lemma_rest_is_the_end(front);
        let before = text::split(front, text::only('\n')).last();
        let rest = text::split(s, text::only('\n')).last();
        if s.last() != '\n' {
            assert(rest == before.push(s.last()));
            assert(rest =~= s.skip(s.len() - rest.len()));
            assert forall|i: int| 0 <= i < rest.len() implies #[trigger] rest[i] != '\n' by {
                if i < before.len() {
                    assert(before[i] != '\n');
                }
            }
        } else {
            assert(rest =~= s.skip(s.len() - rest.len()));
        }
    } else {
        assert(text::split(s, text::only('\n')).last() =~= s.skip(0));
    }
}

/// An event is read as the very text that it brings under `delta`, where it is of
/// the kind that brings one.
pub proof fn law_text_event(value: &serde_json::Value, text: Seq<char>, res: TextEvent)
    requires
        call_ensures(text_event, (value,), res),
        json::json_tree(*value).text_at("type"@) == Some("response.output_text.delta"@),
        json::json_tree(*value).text_at("delta"@) == Some(text),
    ensures
        res matches TextEvent::Delta { text: said } && said@ == text,
{
}

/// Enough was said with fourteen words, and with six that end like a sentence;
/// with five it never is.
pub proof fn law_completed_short_voice_turn(text: &str, res: bool)
    requires
        call_ensures(completed_short_voice_turn, (text,), res),
    ensures
        ({
            let said = text::trimmed(text@);
            let n = text::words(said).len();
            let ended = said.len() > 0 && (said.last() == '?' || said.last() == '.' || said.last()
                == '!');
            &&& n >= 14 ==> res
            &&& n >= 6 && ended ==> res
            &&& n < 6 ==> !res
            &&& n < 14 && !ended ==> !res
        }),
{
}

/// A line that comes in whole and brings a text adds that very text to what was
/// said, and leaves nothing waiting.
pub proof fn law_push_text(
    stream: &mut TextStream,
    line: Seq<char>,
    more: &str,
    tree: JsonTree,
    text: Seq<char>,
    res: Progress,
)
    requires
        call_ensures(TextStream::push_text, (stream, more), res),
        old(stream).buffer@.len() == 0,
        !line.contains('\n'),
        more@ == line.push('\n'),
        data_in(line) is Some,
        json::json_of_text(data_in(line)->0) == Some(tree),
        tree.text_at("type"@) == Some("response.output_text.delta"@),
        tree.text_at("delta"@) == Some(text),
    ensures
        final(stream).output@ == old(stream).output@ + text,
        final(stream).buffer@.len() == 0,
        !(res is Failed),
{
    let sep = text::only('\n');
    let all = old(stream).buffer@ + more@;
    assert(all =~= line.push('\n'));
    assert forall|i: int| 0 <= i < line.len() implies !sep(#[trigger] line[i]) by {}
    text::lemma_split_whole(line, sep);
    assert(all.drop_last() =~= line);
    let pieces = text::split(all, sep);
    assert(pieces =~= seq![line, Seq::<char>::empty()]);
    let lines = pieces.drop_last();
    assert(lines =~= seq![line]);
    assert(lines.drop_last() =~= Seq::<Seq<char>>::empty());
    reveal_with_fuel(with_lines, 2);
}

/// A line with nothing but white space behind `data:` carries nothing.
pub proof fn law_blank_data_is_none(front: Seq<char>, gap: Seq<char>)
    requires
        forall|i: int| 0 <= i < front.len() ==> text::is_white(#[trigger] front[i]),
        forall|i: int| 0 <= i < gap.len() ==> text::is_white(#[trigger] gap[i]),
    ensures
        data_in(front + "data:"@ + gap) is None,
        line_news(front + "data:"@ + gap) == TextNews::Other,
{
    reveal_strlit("data:");
    let line = front + "data:"@ + gap;
    text::law_trimmed(front, "data:"@, gap);
    assert("data:"@[0] == 'd' && "data:"@.last() == ':');
    assert("data:"@.subrange(0, 5) =~= "data:"@);
    assert("data:"@.skip(5) =~= Seq::<char>::empty());
    assert(text::trimmed(Seq::<char>::empty()) =~= Seq::<char>::empty());
}

/// A line that is complete is taken at once, and by what it says alone: with
/// nothing waiting, a line and its line break leave the reply as its news does.
pub proof fn law_one_line_is_taken(output: Seq<char>, line: Seq<char>)
    requires
        !line.contains('\n'),
    ensures
        reply_after(Seq::empty(), output, line.push('\n')) == with_news(output, line_news(line)),
        rest_after(Seq::empty(), line.push('\n')).len() == 0,
{
    let sep = text::only('\n');
    let all = Seq::<char>::empty() + line.push('\n');
    assert(all =~= line.push('\n'));
    assert forall|i: int| 0 <= i < line.len() implies !sep(#[trigger] line[i]) by {}
    text::lemma_split_whole(line, sep);
    assert(all.drop_last() =~= line);
    let pieces = text::split(all, sep);
    assert(pieces =~= seq![line, Seq::<char>::empty()]);
    assert(pieces.drop_last() =~= seq![line]);
    assert(seq![line].drop_last() =~= Seq::<Seq<char>>::empty());
    reveal_with_fuel(with_lines, 2);
}

/// Lines are taken in their order until the reply has ended; what comes then
/// changes nothing.
pub proof fn law_lines_are_taken_in_order(
    output: Seq<char>,
    first: Seq<Seq<char>>,
    second: Seq<Seq<char>>,
    line: Seq<char>,
)
    ensures
        with_lines(output, Seq::empty()) == (Reply::Open { output }),
        with_lines(output, seq![line]) == with_news(output, line_news(line)),
        with_lines(output, first) matches Reply::Open { output: before } ==> with_lines(
            output,
            first + second,
        ) == with_lines(before, second),
        !(with_lines(output, first) is Open) ==> with_lines(output, first + second) == with_lines(
            output,
            first,
        ),
{
    reveal_with_fuel(with_lines, 2);
    assert(seq![line].drop_last() =~= Seq::<Seq<char>>::empty());
    lemma_lines_in_two(output, first, second);
}

} // verus!
