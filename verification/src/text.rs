//! Text as sequences of characters: whitespace, splitting, matching and
//! decimal numbers.

use vstd::prelude::*;

verus! {

/// `String::push` appends one character.
pub assume_specification[ String::push ](string: &mut String, ch: char)
    ensures
        final(string)@ == old(string)@.push(ch),
;

// ---------------------------------------------------------------------------
// Characters
// ---------------------------------------------------------------------------

/// The characters with the Unicode property White_Space.
pub open spec fn is_white(c: char) -> bool {
    ||| '\u{0009}' <= c <= '\u{000d}'
    ||| c == '\u{0020}'
    ||| c == '\u{0085}'
    ||| c == '\u{00a0}'
    ||| c == '\u{1680}'
    ||| '\u{2000}' <= c <= '\u{200a}'
    ||| c == '\u{2028}'
    ||| c == '\u{2029}'
    ||| c == '\u{202f}'
    ||| c == '\u{205f}'
    ||| c == '\u{3000}'
}

/// Whether `c` is white space.
pub fn is_whitespace(c: char) -> (res: bool)
    ensures
        res == is_white(c),
{
    ('\u{0009}' <= c && c <= '\u{000d}') || c == '\u{0020}' || c == '\u{0085}' || c == '\u{00a0}'
        || c == '\u{1680}' || ('\u{2000}' <= c && c <= '\u{200a}') || c == '\u{2028}' || c
        == '\u{2029}' || c == '\u{202f}' || c == '\u{205f}' || c == '\u{3000}'
}

pub open spec fn is_digit(c: char) -> bool {
    '0' <= c <= '9'
}

/// The lower-case form of an ASCII letter; any other character stays.
pub open spec fn lower_char(c: char) -> char {
    if 'A' <= c <= 'Z' {
        (c as u8 + 32) as char
    } else {
        c
    }
}

fn lower_ascii_char(c: char) -> (res: char)
    ensures
        res == lower_char(c),
{
    if 'A' <= c && c <= 'Z' {
        (c as u8 + 32) as char
    } else {
        c
    }
}

// ---------------------------------------------------------------------------
// Strings and vectors of characters
// ---------------------------------------------------------------------------

/// The characters of a string.
pub fn chars_of(text: &str) -> (res: Vec<char>)
    ensures
        res@ == text@,
{
    let mut res: Vec<char> = Vec::new();
    for c in it: text.chars()
        invariant
            it.seq() == text@,
            res@ == text@.take(it.index()),
    {
        res.push(c);
        assert(text@.take(it.index() + 1) =~= text@.take(it.index()).push(c));
    }
    assert(text@.take(text@.len() as int) =~= text@);
    res
}

/// The string of these characters.
pub fn text_of(chars: &[char]) -> (res: String)
    ensures
        res@ == chars@,
{
    let mut res = String::new();
    let n: usize = chars.len();
    for i in 0..n
        invariant
            n == chars@.len(),
            res@ == chars@.take(i as int),
    {
        res.push(chars[i]);
        assert(chars@.take(i + 1) =~= chars@.take(i as int).push(chars@[i as int]));
    }
    assert(chars@.take(n as int) =~= chars@);
    res
}

/// Whether two strings hold the same characters.
pub fn same_text(a: &str, b: &str) -> (res: bool)
    ensures
        res == (a@ == b@),
{
    let left = chars_of(a);
    let right = chars_of(b);
    same_chars(left.as_slice(), right.as_slice())
}

pub fn same_chars(a: &[char], b: &[char]) -> (res: bool)
    ensures
        res == (a@ == b@),
{
    if a.len() != b.len() {
        return false;
    }
    let n: usize = a.len();
    for i in 0..n
        invariant
            n == a@.len(),
            n == b@.len(),
            forall|j: int| 0 <= j < i ==> a@[j] == b@[j],
    {
        if a[i] != b[i] {
            assert(a@[i as int] != b@[i as int]);
            return false;
        }
    }
    assert(a@ =~= b@);
    true
}

// ---------------------------------------------------------------------------
// Trimming
// ---------------------------------------------------------------------------

/// What is left of `s` without the leading characters that `drop` accepts.
pub open spec fn trim_front(s: Seq<char>, drop: spec_fn(char) -> bool) -> Seq<char>
    decreases s.len(),
{
    if s.len() > 0 && drop(s[0]) {
        trim_front(s.drop_first(), drop)
    } else {
        s
    }
}

/// What is left of `s` without the trailing characters that `drop` accepts.
pub open spec fn trim_back(s: Seq<char>, drop: spec_fn(char) -> bool) -> Seq<char>
    decreases s.len(),
{
    if s.len() > 0 && drop(s.last()) {
        trim_back(s.drop_last(), drop)
    } else {
        s
    }
}

/// `s` without the characters that `drop` accepts at either end.
pub open spec fn trim_both(s: Seq<char>, drop: spec_fn(char) -> bool) -> Seq<char> {
    trim_back(trim_front(s, drop), drop)
}

/// The class of white space.
pub open spec fn white() -> spec_fn(char) -> bool {
    |c: char| is_white(c)
}

/// `s` without white space at either end.
pub open spec fn trimmed(s: Seq<char>) -> Seq<char> {
    trim_both(s, white())
}

/// A trimmed text starts and ends with a character that stays, and is a part
/// of the text it came from.
pub proof fn lemma_trim_both(s: Seq<char>, drop: spec_fn(char) -> bool)
    ensures
        trim_both(s, drop).len() <= s.len(),
        trim_both(s, drop).len() > 0 ==> !drop(trim_both(s, drop)[0]) && !drop(
            trim_both(s, drop).last(),
        ),
        exists|a: int, b: int|
            0 <= a <= b <= s.len() && trim_both(s, drop) == #[trigger] s.subrange(a, b),
{
    lemma_trim_front(s, drop);
    let front = trim_front(s, drop);
    lemma_trim_back(front, drop);
    let a = s.len() - front.len();
    let b = a + trim_back(front, drop).len();
    assert(trim_both(s, drop) =~= s.subrange(a, b));
    assert(trim_both(s, drop).len() > 0 ==> trim_both(s, drop)[0] == front[0]);
}

proof fn lemma_trim_front(s: Seq<char>, drop: spec_fn(char) -> bool)
    ensures
        trim_front(s, drop).len() <= s.len(),
        trim_front(s, drop) == s.skip(s.len() - trim_front(s, drop).len()),
        trim_front(s, drop).len() > 0 ==> !drop(trim_front(s, drop)[0]),
        forall|i: int|
            0 <= i < s.len() - trim_front(s, drop).len() ==> #[trigger] drop(s[i]),
    decreases s.len(),
{
    if s.len() > 0 && drop(s[0]) {
        let rest = s.drop_first();
        lemma_trim_front(rest, drop);
        let left = trim_front(rest, drop);
        assert(left =~= s.skip(s.len() - left.len()));
        assert forall|i: int| 0 <= i < s.len() - left.len() implies #[trigger] drop(s[i]) by {
            if i > 0 {
                assert(drop(rest[i - 1]));
            }
        }
    } else {
        assert(s.skip(0) =~= s);
    }
}

pub proof fn lemma_trim_back(s: Seq<char>, drop: spec_fn(char) -> bool)
    ensures
        trim_back(s, drop).len() <= s.len(),
        trim_back(s, drop) == s.take(trim_back(s, drop).len() as int),
        trim_back(s, drop).len() > 0 ==> !drop(trim_back(s, drop).last()),
        forall|i: int| trim_back(s, drop).len() <= i < s.len() ==> #[trigger] drop(s[i]),
    decreases s.len(),
{
    if s.len() > 0 && drop(s.last()) {
        lemma_trim_back(s.drop_last(), drop);
        let left = trim_back(s.drop_last(), drop);
        assert(left =~= s.take(left.len() as int));
        assert forall|i: int| left.len() <= i < s.len() implies #[trigger] drop(s[i]) by {
            if i < s.len() - 1 {
                assert(drop(s.drop_last()[i]));
            }
        }
    } else {
        assert(s.take(s.len() as int) =~= s);
    }
}

/// Dropping a front of characters that all go leaves the same trimmed rest.
proof fn lemma_trim_front_at(s: Seq<char>, drop: spec_fn(char) -> bool, n: int)
    requires
        0 <= n <= s.len(),
        forall|i: int| 0 <= i < n ==> #[trigger] drop(s[i]),
        n < s.len() ==> !drop(s[n]),
    ensures
        trim_front(s, drop) == s.skip(n),
    decreases n,
{
    if n == 0 {
        assert(s.skip(0) =~= s);
    } else {
        assert(drop(s[0]));
        let rest = s.drop_first();
        assert forall|i: int| 0 <= i < n - 1 implies #[trigger] drop(rest[i]) by {
            assert(drop(s[i + 1]));
        }
        lemma_trim_front_at(rest, drop, n - 1);
        assert(rest.skip(n - 1) =~= s.skip(n));
    }
}

pub proof fn lemma_trim_back_at(s: Seq<char>, drop: spec_fn(char) -> bool, n: int)
    requires
        0 <= n <= s.len(),
        forall|i: int| n <= i < s.len() ==> #[trigger] drop(s[i]),
        n > 0 ==> !drop(s[n - 1]),
    ensures
        trim_back(s, drop) == s.take(n),
    decreases s.len() - n,
{
    if n == s.len() {
        assert(s.take(n) =~= s);
    } else {
        assert(drop(s[s.len() - 1]));
        let rest = s.drop_last();
        assert forall|i: int| n <= i < rest.len() implies #[trigger] drop(rest[i]) by {
            assert(drop(s[i]));
        }
        lemma_trim_back_at(rest, drop, n);
        assert(rest.take(n) =~= s.take(n));
    }
}

/// The part between two places is the trimmed text where all before the first
/// and all from the second on goes, and what stands at the edges stays.
pub proof fn lemma_trim_both_at(s: Seq<char>, drop: spec_fn(char) -> bool, a: int, b: int)
    requires
        0 <= a <= b <= s.len(),
        forall|i: int| 0 <= i < a ==> #[trigger] drop(s[i]),
        forall|i: int| b <= i < s.len() ==> #[trigger] drop(s[i]),
        a < b ==> !drop(s[a]) && !drop(s[b - 1]),
        a == b ==> a == s.len(),
    ensures
        trim_both(s, drop) == s.subrange(a, b),
{
    lemma_trim_front_at(s, drop, a);
    let front = s.skip(a);
    lemma_trim_back_at(front, drop, b - a);
    assert(front.take(b - a) =~= s.subrange(a, b));
}

/// The characters without white space at either end.
pub fn trim_chars(chars: &[char]) -> (res: Vec<char>)
    ensures
        res@ == trimmed(chars@),
{
    let n: usize = chars.len();
    let mut a: usize = 0;
    while a < n && is_whitespace(chars[a])
        invariant
            a <= n,
            n == chars@.len(),
            forall|i: int| 0 <= i < a ==> #[trigger] is_white(chars@[i]),
        decreases n - a,
    {
        a += 1;
    }
    let mut b: usize = n;
    while b > a && is_whitespace(chars[b - 1])
        invariant
            a <= b <= n,
            n == chars@.len(),
            forall|i: int| b <= i < n ==> #[trigger] is_white(chars@[i]),
        decreases b,
    {
        b -= 1;
    }
    let res = copy_range(chars, a, b);
    proof {
        lemma_trim_both_at(chars@, white(), a as int, b as int);
    }
    res
}

/// The characters from `a` up to `b`.
pub fn copy_range(chars: &[char], a: usize, b: usize) -> (res: Vec<char>)
    requires
        a <= b <= chars@.len(),
    ensures
        res@ == chars@.subrange(a as int, b as int),
{
    let mut res: Vec<char> = Vec::new();
    for i in a..b
        invariant
            a <= b <= chars@.len(),
            res@ == chars@.subrange(a as int, i as int),
    {
        res.push(chars[i]);
        assert(chars@.subrange(a as int, i + 1) =~= chars@.subrange(a as int, i as int).push(
            chars@[i as int],
        ));
    }
    res
}

/// `text` without white space at either end.
pub fn trim(text: &str) -> (res: String)
    ensures
        res@ == trimmed(text@),
{
    text_of(trim_chars(chars_of(text).as_slice()).as_slice())
}

// ---------------------------------------------------------------------------
// Splitting and joining
// ---------------------------------------------------------------------------

/// The pieces of `s` between the characters that `sep` accepts: one more than
/// there are separators.
pub open spec fn split(s: Seq<char>, sep: spec_fn(char) -> bool) -> Seq<Seq<char>>
    decreases s.len(),
{
    if s.len() == 0 {
        seq![Seq::<char>::empty()]
    } else {
        let before = split(s.drop_last(), sep);
        if sep(s.last()) {
            before.push(Seq::<char>::empty())
        } else {
            before.drop_last().push(before.last().push(s.last()))
        }
    }
}

/// The class of one character.
pub open spec fn only(c: char) -> spec_fn(char) -> bool {
    |x: char| x == c
}

pub open spec fn filled() -> spec_fn(Seq<char>) -> bool {
    |piece: Seq<char>| piece.len() > 0
}

/// The words of `s`: its pieces between white space that are not empty.
pub open spec fn words(s: Seq<char>) -> Seq<Seq<char>> {
    split(s, white()).filter(filled())
}

/// The parts in order with `sep` between neighbours.
pub open spec fn join(parts: Seq<Seq<char>>, sep: Seq<char>) -> Seq<char>
    decreases parts.len(),
{
    if parts.len() == 0 {
        Seq::empty()
    } else if parts.len() == 1 {
        parts[0]
    } else {
        join(parts.drop_last(), sep) + sep + parts.last()
    }
}

/// The contents of a vector of strings.
pub open spec fn texts(v: Seq<String>) -> Seq<Seq<char>> {
    v.map_values(|s: String| s@)
}

/// The contents of a string that may be missing.
pub open spec fn text_view(text: Option<String>) -> Option<Seq<char>> {
    match text {
        Some(text) => Some(text@),
        None => None,
    }
}

pub proof fn lemma_split_len(s: Seq<char>, sep: spec_fn(char) -> bool)
    ensures
        split(s, sep).len() >= 1,
    decreases s.len(),
{
    if s.len() > 0 {
        lemma_split_len(s.drop_last(), sep);
    }
}

/// Appending text without a separator lengthens the last piece.
pub proof fn lemma_split_extend(s: Seq<char>, t: Seq<char>, sep: spec_fn(char) -> bool)
    requires
        forall|i: int| 0 <= i < t.len() ==> !sep(#[trigger] t[i]),
    ensures
        split(s + t, sep) == split(s, sep).drop_last().push(split(s, sep).last() + t),
    decreases t.len(),
{
    lemma_split_len(s, sep);
    let before = split(s, sep);
    if t.len() == 0 {
        assert(s + t =~= s);
        assert(before.last() + t =~= before.last());
        assert(before.drop_last().push(before.last()) =~= before);
    } else {
        let shorter = t.drop_last();
        lemma_split_extend(s, shorter, sep);
        assert((s + t).drop_last() =~= s + shorter);
        assert((s + t).last() == t[t.len() - 1]);
        assert(!sep(t[t.len() - 1]));
        let mid = split(s + shorter, sep);
        assert(mid.drop_last() =~= before.drop_last());
        assert(mid.last() == before.last() + shorter);
        assert((before.last() + shorter).push(t.last()) =~= before.last() + t);
    }
}

/// A separator and text without one add a piece.
pub proof fn lemma_split_next(s: Seq<char>, c: char, t: Seq<char>, sep: spec_fn(char) -> bool)
    requires
        sep(c),
        forall|i: int| 0 <= i < t.len() ==> !sep(#[trigger] t[i]),
    ensures
        split(s.push(c) + t, sep) == split(s, sep).push(t),
{
    let started = s.push(c);
    assert(started.drop_last() =~= s);
    lemma_split_extend(started, t, sep);
    assert(split(started, sep) =~= split(s, sep).push(Seq::<char>::empty()));
    assert(split(started, sep).drop_last() =~= split(s, sep));
    assert(Seq::<char>::empty() + t =~= t);
}

/// The first piece is what stands before the first separator.
pub proof fn lemma_split_first(s: Seq<char>, sep: spec_fn(char) -> bool, at: int)
    requires
        0 <= at <= s.len(),
        forall|i: int| 0 <= i < at ==> !sep(#[trigger] s[i]),
        at < s.len() ==> sep(s[at]),
    ensures
        split(s, sep)[0] == s.take(at),
    decreases s.len(),
{
    lemma_split_len(s, sep);
    if s.len() > 0 {
        let shorter = s.drop_last();
        lemma_split_len(shorter, sep);
        if at < s.len() {
            assert(at < shorter.len() ==> shorter[at] == s[at]);
            lemma_split_first(shorter, sep, at);
            assert(shorter.take(at) =~= s.take(at));
            if !sep(s.last()) {
                lemma_split_two(shorter, sep, at);
            }
        } else {
            lemma_split_first(shorter, sep, shorter.len() as int);
            lemma_split_extend(Seq::<char>::empty(), s, sep);
            assert(Seq::<char>::empty() + s =~= s);
            assert(s.take(at) =~= s);
        }
    } else {
        assert(s.take(at) =~= Seq::<char>::empty());
    }
}

/// A text with a separator has at least two pieces.
proof fn lemma_split_two(s: Seq<char>, sep: spec_fn(char) -> bool, at: int)
    requires
        0 <= at < s.len(),
        sep(s[at]),
    ensures
        split(s, sep).len() >= 2,
    decreases s.len(),
{
    lemma_split_len(s.drop_last(), sep);
    if at < s.len() - 1 {
        lemma_split_two(s.drop_last(), sep, at);
    }
}

/// The pieces of `text` between occurrences of `sep`.
pub fn split_char(text: &str, sep: char) -> (res: Vec<String>)
    ensures
        texts(res@) == split(text@, only(sep)),
        res@.len() >= 1,
{
    let chars = chars_of(text);
    let n: usize = chars.len();
    let mut done: Vec<String> = Vec::new();
    let mut open = String::new();
    proof {
        assert(chars@.take(0) =~= Seq::<char>::empty());
        assert(texts(done@) =~= Seq::<Seq<char>>::empty());
        assert(split(Seq::<char>::empty(), only(sep)).drop_last() =~= Seq::<Seq<char>>::empty());
    }
    for i in 0..n
        invariant
            n == chars@.len(),
            chars@ == text@,
            split(text@.take(i as int), only(sep)).len() >= 1,
            texts(done@) == split(text@.take(i as int), only(sep)).drop_last(),
            open@ == split(text@.take(i as int), only(sep)).last(),
    {
        let c = chars[i];
        let ghost before = split(text@.take(i as int), only(sep));
        proof {
            assert(text@.take(i + 1).drop_last() =~= text@.take(i as int));
        }
        if c == sep {
            let ghost old_done = done@;
            let ghost piece = open@;
            done.push(open);
            open = String::new();
            proof {
                assert(texts(done@) =~= texts(old_done).push(piece));
                assert(before.drop_last().push(before.last()) =~= before);
                assert(before.push(Seq::<char>::empty()).drop_last() =~= before);
            }
        } else {
            open.push(c);
            proof {
                assert(before.drop_last().push(before.last().push(c)).drop_last()
                    =~= before.drop_last());
            }
        }
    }
    assert(text@.take(n as int) =~= text@);
    let ghost all = split(text@, only(sep));
    let ghost old_done = done@;
    let ghost piece = open@;
    done.push(open);
    assert(texts(done@) =~= texts(old_done).push(piece));
    assert(all.drop_last().push(all.last()) =~= all);
    done
}

/// The words of `text`.
pub fn split_whitespace(text: &str) -> (res: Vec<String>)
    ensures
        texts(res@) == words(text@),
{
    let chars = chars_of(text);
    let n: usize = chars.len();
    let mut done: Vec<String> = Vec::new();
    let mut open = String::new();
    let mut open_len: usize = 0;
    proof {
        reveal(Seq::filter);
        assert(chars@.take(0) =~= Seq::<char>::empty());
        assert(texts(done@) =~= Seq::<Seq<char>>::empty());
        assert(split(Seq::<char>::empty(), white()).drop_last() =~= Seq::<Seq<char>>::empty());
    }
    for i in 0..n
        invariant
            n == chars@.len(),
            chars@ == text@,
            split(text@.take(i as int), white()).len() >= 1,
            texts(done@) == split(text@.take(i as int), white()).drop_last().filter(filled()),
            open@ == split(text@.take(i as int), white()).last(),
            open_len == open@.len(),
            open_len <= i,
    {
        let c = chars[i];
        let ghost before = split(text@.take(i as int), white());
        proof {
            assert(text@.take(i + 1).drop_last() =~= text@.take(i as int));
            assert(before.drop_last().push(before.last()) =~= before);
        }
        if is_whitespace(c) {
            let ghost old_done = done@;
            let ghost piece = open@;
            if open_len > 0 {
                done.push(open);
                proof {
                    assert(texts(done@) =~= texts(old_done).push(piece));
                }
            }
            open = String::new();
            open_len = 0;
            proof {
                reveal(Seq::filter);
                assert(before.push(Seq::<char>::empty()).drop_last() =~= before);
                assert(filled()(piece) == (piece.len() > 0));
            }
        } else {
            open.push(c);
            open_len += 1;
            proof {
                assert(before.drop_last().push(before.last().push(c)).drop_last()
                    =~= before.drop_last());
            }
        }
    }
    let ghost all = split(text@, white());
    proof {
        assert(text@.take(n as int) =~= text@);
        reveal(Seq::filter);
        assert(filled()(all.last()) == (all.last().len() > 0));
    }
    if open_len > 0 {
        let ghost old_done = done@;
        let ghost piece = open@;
        done.push(open);
        assert(texts(done@) =~= texts(old_done).push(piece));
    }
    done
}

/// How many words `text` has.
pub fn word_count(text: &str) -> (res: usize)
    ensures
        res == words(text@).len(),
{
    let all = split_whitespace(text);
    let n: usize = all.len();
    assert(texts(all@).len() == n);
    n
}

/// The parts in order with `sep` between neighbours.
pub fn join_texts(parts: &[String], sep: &str) -> (res: String)
    ensures
        res@ == join(texts(parts@), sep@),
{
    let mut res = String::new();
    let n: usize = parts.len();
    for i in 0..n
        invariant
            n == parts@.len(),
            res@ == join(texts(parts@).take(i as int), sep@),
    {
        let ghost next = texts(parts@).take(i + 1);
        proof {
            assert(next.drop_last() =~= texts(parts@).take(i as int));
            assert(next.last() == parts@[i as int]@);
        }
        if i > 0 {
            res.append(sep);
        } else {
            assert(Seq::<char>::empty() + parts@[i as int]@ =~= parts@[i as int]@);
        }
        res.append(parts[i].as_str());
    }
    assert(texts(parts@).take(n as int) =~= texts(parts@));
    res
}

/// `s` without one carriage return at its end.
pub open spec fn without_return(s: Seq<char>) -> Seq<char> {
    if s.len() > 0 && s.last() == '\r' {
        s.drop_last()
    } else {
        s
    }
}

/// The lines of `s`. A line ends with a line feed, or with a carriage return and
/// a line feed; what stands behind the last of them is a line if it is not
/// empty.
pub open spec fn lines(s: Seq<char>) -> Seq<Seq<char>> {
    let pieces = split(s, only('\n'));
    let ended = pieces.drop_last().map_values(|piece: Seq<char>| without_return(piece));
    if pieces.last().len() == 0 {
        ended
    } else {
        ended.push(pieces.last())
    }
}

fn cut_return(text: &str) -> (res: String)
    ensures
        res@ == without_return(text@),
{
    let chars = chars_of(text);
    let n: usize = chars.len();
    if n > 0 && chars[n - 1] == '\r' {
        let res = text_of(copy_range(chars.as_slice(), 0, n - 1).as_slice());
        assert(res@ =~= text@.drop_last());
        res
    } else {
        text.to_owned()
    }
}

/// The lines of `text`.
pub fn split_lines(text: &str) -> (res: Vec<String>)
    ensures
        texts(res@) == lines(text@),
{
    let pieces = split_char(text, '\n');
    let ghost all = split(text@, only('\n'));
    let n: usize = pieces.len();
    assert(texts(pieces@).len() == n);
    let ghost ended = all.drop_last().map_values(|piece: Seq<char>| without_return(piece));
    let mut res: Vec<String> = Vec::new();
    assert(texts(res@) =~= ended.take(0));
    for i in 0..n - 1
        invariant
            n >= 1,
            n == pieces@.len(),
            texts(pieces@) == all,
            ended == all.drop_last().map_values(|piece: Seq<char>| without_return(piece)),
            texts(res@) == ended.take(i as int),
    {
        assert(texts(pieces@)[i as int] == pieces@[i as int]@);
        let ghost old_res = res@;
        let line = cut_return(pieces[i].as_str());
        let ghost held = line@;
        res.push(line);
        assert(all.len() == n);
        assert(texts(res@) =~= texts(old_res).push(held));
        assert(ended.take(i + 1) =~= ended.take(i as int).push(held));
    }
    assert(ended.take(n - 1) =~= ended);
    assert(texts(pieces@)[n - 1] == pieces@[n - 1]@);
    if !pieces[n - 1].as_str().is_empty() {
        let ghost old_res = res@;
        res.push(pieces[n - 1].clone());
        assert(texts(res@) =~= texts(old_res).push(pieces@[n - 1]@));
    }
    res
}

/// Appending text goes on with the last piece.
pub proof fn lemma_split_append(s: Seq<char>, t: Seq<char>, sep: spec_fn(char) -> bool)
    ensures
        split(s + t, sep) == split(s, sep).drop_last() + split(split(s, sep).last() + t, sep),
        split(split(s, sep).last() + t, sep).len() >= 1,
    decreases t.len(),
{
    lemma_split_len(s, sep);
    let head = split(s, sep).drop_last();
    let open = split(s, sep).last();
    if t.len() == 0 {
        lemma_split_free(s, sep);
        assert(s + t =~= s);
        assert(open + t =~= open);
        lemma_split_whole(open, sep);
        assert(head + seq![open] =~= split(s, sep));
    } else {
        let shorter = t.drop_last();
        lemma_split_append(s, shorter, sep);
        assert((s + t).drop_last() =~= s + shorter);
        assert((open + t).drop_last() =~= open + shorter);
        let before = split(open + shorter, sep);
        if sep(t.last()) {
            assert((head + before).push(Seq::<char>::empty()) =~= head + before.push(
                Seq::<char>::empty(),
            ));
        } else {
            let longer = before.last().push(t.last());
            assert((head + before).drop_last().push(longer) =~= head + before.drop_last().push(
                longer,
            ));
        }
    }
}

/// A text without a separator is its only piece.
pub proof fn lemma_split_whole(s: Seq<char>, sep: spec_fn(char) -> bool)
    requires
        forall|i: int| 0 <= i < s.len() ==> !sep(#[trigger] s[i]),
    ensures
        split(s, sep) == seq![s],
{
    let empty = Seq::<char>::empty();
    lemma_split_extend(empty, s, sep);
    assert(empty + s =~= s);
    assert(split(empty, sep) =~= seq![empty]);
    assert(split(empty, sep).drop_last().push(s) =~= seq![s]);
}

/// No piece holds a separator.
pub proof fn lemma_split_free(s: Seq<char>, sep: spec_fn(char) -> bool)
    ensures
        forall|k: int, i: int|
            0 <= k < split(s, sep).len() && 0 <= i < split(s, sep)[k].len() ==> !sep(
                #[trigger] split(s, sep)[k][i],
            ),
    decreases s.len(),
{
    if s.len() > 0 {
        lemma_split_len(s.drop_last(), sep);
        lemma_split_free(s.drop_last(), sep);
        let before = split(s.drop_last(), sep);
        let after = split(s, sep);
        assert forall|k: int, i: int| 0 <= k < after.len() && 0 <= i < after[k].len() implies !sep(
            #[trigger] after[k][i],
        ) by {
            if k < before.len() && i < before[k].len() && after[k][i] == before[k][i] {
                assert(!sep(before[k][i]));
            }
        }
    }
}

/// A word is not empty and holds no white space.
pub open spec fn is_word(word: Seq<char>) -> bool {
    word.len() > 0 && forall|i: int| 0 <= i < word.len() ==> !is_white(#[trigger] word[i])
}

/// The words of a text are words.
pub proof fn lemma_words_are_words(s: Seq<char>)
    ensures
        forall|k: int| 0 <= k < words(s).len() ==> is_word(#[trigger] words(s)[k]),
{
    let pieces = split(s, white());
    lemma_split_free(s, white());
    assert forall|k: int| 0 <= k < words(s).len() implies is_word(#[trigger] words(s)[k]) by {
        pieces.lemma_filter_pred(filled(), k);
        pieces.lemma_filter_contains_rev(filled(), words(s)[k]);
        let j = choose|j: int| 0 <= j < pieces.len() && pieces[j] == words(s)[k];
        assert forall|i: int| 0 <= i < pieces[j].len() implies !is_white(#[trigger] pieces[j][i]) by {
            assert(!white()(pieces[j][i]));
        }
    }
}

/// Words with a space between neighbours are the words of what they make.
pub proof fn lemma_words_of_join(list: Seq<Seq<char>>)
    requires
        forall|k: int| 0 <= k < list.len() ==> is_word(#[trigger] list[k]),
    ensures
        words(join(list, " "@)) == list,
{
    reveal(Seq::filter);
    if list.len() == 0 {
        let empty = Seq::<char>::empty();
        let pieces = split(empty, white());
        assert(pieces =~= seq![empty]);
        assert(pieces.drop_last() =~= list);
        assert(list.filter(filled()) =~= list);
        assert(!filled()(pieces.last()));
    } else {
        lemma_split_of_join(list);
        lemma_all_filled(list);
    }
}

proof fn lemma_split_of_join(list: Seq<Seq<char>>)
    requires
        list.len() > 0,
        forall|k: int| 0 <= k < list.len() ==> is_word(#[trigger] list[k]),
    ensures
        split(join(list, " "@), white()) == list,
    decreases list.len(),
{
    let last = list.last();
    assert(is_word(list[list.len() - 1]));
    assert forall|i: int| 0 <= i < last.len() implies !white()(#[trigger] last[i]) by {
        assert(!is_white(last[i]));
    }
    if list.len() == 1 {
        lemma_split_whole(last, white());
        assert(list =~= seq![last]);
    } else {
        let front = list.drop_last();
        assert forall|k: int| 0 <= k < front.len() implies is_word(#[trigger] front[k]) by {
            assert(is_word(list[k]));
        }
        lemma_split_of_join(front);
        reveal_strlit(" ");
        assert(join(front, " "@) + " "@ =~= join(front, " "@).push(' '));
        assert(white()(' '));
        lemma_split_next(join(front, " "@), ' ', last, white());
        assert(front.push(last) =~= list);
    }
}

proof fn lemma_all_filled(list: Seq<Seq<char>>)
    requires
        forall|k: int| 0 <= k < list.len() ==> is_word(#[trigger] list[k]),
    ensures
        list.filter(filled()) == list,
    decreases list.len(),
{
    reveal(Seq::filter);
    if list.len() > 0 {
        let front = list.drop_last();
        assert forall|k: int| 0 <= k < front.len() implies is_word(#[trigger] front[k]) by {
            assert(is_word(list[k]));
        }
        lemma_all_filled(front);
        assert(is_word(list[list.len() - 1]));
        assert(filled()(list.last()));
        assert(front.push(list.last()) =~= list);
    } else {
        assert(list.filter(filled()) =~= list);
    }
}

/// White space between words comes down to single spaces without a change of
/// the words.
pub proof fn law_words_rejoin(s: Seq<char>)
    ensures
        words(join(words(s), " "@)) == words(s),
{
    lemma_words_are_words(s);
    lemma_words_of_join(words(s));
}

/// A character that is no white space starts a word behind white space or
/// nothing, and any other belongs to the word before it.
pub proof fn lemma_word_count_push(s: Seq<char>, c: char)
    ensures
        words(s.push(c)).len() == if is_white(c) || (s.len() > 0 && !is_white(s.last())) {
            words(s).len()
        } else {
            words(s).len() + 1
        },
{
    reveal(Seq::filter);
    lemma_split_len(s, white());
    let before = split(s, white());
    assert(s.push(c).drop_last() =~= s);
    let after = split(s.push(c), white());
    assert(filled()(before.last()) == (before.last().len() > 0));
    if is_white(c) {
        assert(after.drop_last() =~= before);
        assert(!filled()(after.last()));
    } else {
        assert(after.drop_last() =~= before.drop_last());
        assert(filled()(after.last()));
    }
    if s.len() > 0 {
        lemma_split_len(s.drop_last(), white());
        assert(white()(s.last()) == is_white(s.last()));
    }
}

/// A text has no fewer words than a part of it from its start.
pub proof fn lemma_word_count_grows(s: Seq<char>, n: int)
    requires
        0 <= n <= s.len(),
    ensures
        words(s.take(n)).len() <= words(s).len(),
    decreases s.len() - n,
{
    if n == s.len() {
        assert(s.take(n) =~= s);
    } else {
        let shorter = s.drop_last();
        lemma_word_count_grows(shorter, n);
        assert(shorter.take(n) =~= s.take(n));
        assert(shorter.push(s.last()) =~= s);
        lemma_word_count_push(shorter, s.last());
    }
}

/// The bytes that `s` takes in UTF-8.
pub open spec fn utf8_len(s: Seq<char>) -> nat {
    vstd::utf8::encode_utf8(s).len()
}

/// The bytes that `text` takes in UTF-8.
pub fn byte_len(text: &str) -> (res: usize)
    ensures
        res == utf8_len(text@),
{
    text.as_bytes().len()
}

// ---------------------------------------------------------------------------
// Matching
// ---------------------------------------------------------------------------

/// `needle` stands in `s` at `at`.
pub open spec fn occurs_at(s: Seq<char>, needle: Seq<char>, at: int) -> bool {
    &&& 0 <= at
    &&& at + needle.len() <= s.len()
    &&& s.subrange(at, at + needle.len()) == needle
}

/// `needle` stands somewhere in `s`.
pub open spec fn contains(s: Seq<char>, needle: Seq<char>) -> bool {
    exists|at: int| #[trigger] occurs_at(s, needle, at)
}

pub open spec fn starts_with(s: Seq<char>, prefix: Seq<char>) -> bool {
    occurs_at(s, prefix, 0)
}

/// The last character of `s` is `c`.
pub open spec fn ends_with_char(s: Seq<char>, c: char) -> bool {
    s.len() > 0 && s.last() == c
}

/// `s` with its ASCII letters in lower case.
pub open spec fn lower(s: Seq<char>) -> Seq<char> {
    s.map_values(|c: char| lower_char(c))
}

/// Whether `needle` stands in `chars` at `at`.
pub fn occurs(chars: &[char], needle: &[char], at: usize) -> (res: bool)
    ensures
        res == occurs_at(chars@, needle@, at as int),
{
    let n: usize = needle.len();
    let m: usize = chars.len();
    if m < n || at > m - n {
        return false;
    }
    for i in 0..n
        invariant
            n == needle@.len(),
            m == chars@.len(),
            at + n <= chars@.len(),
            forall|j: int| 0 <= j < i ==> chars@[at + j] == needle@[j],
    {
        if chars[at + i] != needle[i] {
            proof {
                let part = chars@.subrange(at as int, at + n);
                assert(part[i as int] == chars@[at + i]);
            }
            return false;
        }
    }
    assert(chars@.subrange(at as int, at + n) =~= needle@);
    true
}

/// Whether `needle` stands somewhere in `text`.
pub fn contains_text(text: &str, needle: &str) -> (res: bool)
    ensures
        res == contains(text@, needle@),
{
    let chars = chars_of(text);
    let wanted = chars_of(needle);
    let n: usize = chars.len();
    let mut at: usize = 0;
    loop
        invariant
            at <= n,
            n == chars@.len(),
            chars@ == text@,
            wanted@ == needle@,
            forall|i: int| 0 <= i < at ==> !#[trigger] occurs_at(text@, needle@, i),
        decreases n - at,
    {
        if occurs(chars.as_slice(), wanted.as_slice(), at) {
            return true;
        }
        if at == n {
            return false;
        }
        at += 1;
    }
}

/// Whether `c` stands somewhere in `text`.
pub fn contains_char(text: &str, c: char) -> (res: bool)
    ensures
        res == text@.contains(c),
{
    let chars = chars_of(text);
    let n: usize = chars.len();
    for i in 0..n
        invariant
            n == chars@.len(),
            chars@ == text@,
            forall|j: int| 0 <= j < i ==> text@[j] != c,
    {
        if chars[i] == c {
            assert(text@[i as int] == c);
            return true;
        }
    }
    false
}

/// Whether `text` begins with `prefix`.
pub fn starts_with_text(text: &str, prefix: &str) -> (res: bool)
    ensures
        res == starts_with(text@, prefix@),
{
    occurs(chars_of(text).as_slice(), chars_of(prefix).as_slice(), 0)
}

/// Whether the last character of `text` is `c`.
pub fn ends_with(text: &str, c: char) -> (res: bool)
    ensures
        res == ends_with_char(text@, c),
{
    let chars = chars_of(text);
    let n: usize = chars.len();
    n > 0 && chars[n - 1] == c
}

/// `text` with its ASCII letters in lower case.
pub fn to_ascii_lowercase(text: &str) -> (res: String)
    ensures
        res@ == lower(text@),
{
    let chars = chars_of(text);
    let n: usize = chars.len();
    let mut res = String::new();
    for i in 0..n
        invariant
            n == chars@.len(),
            chars@ == text@,
            res@ == lower(text@).take(i as int),
    {
        res.push(lower_ascii_char(chars[i]));
        assert(lower(text@).take(i + 1) =~= lower(text@).take(i as int).push(
            lower(text@)[i as int],
        ));
    }
    assert(lower(text@).take(n as int) =~= lower(text@));
    res
}

// ---------------------------------------------------------------------------
// Decimal numbers
// ---------------------------------------------------------------------------

pub open spec fn digit_char(d: nat) -> char {
    ('0' as u8 + d) as char
}

pub open spec fn digit_value(c: char) -> nat {
    (c as u8 - '0' as u8) as nat
}

/// `n` in decimal, without leading zeros.
pub open spec fn decimal(n: nat) -> Seq<char>
    decreases n,
{
    if n < 10 {
        seq![digit_char(n)]
    } else {
        decimal(n / 10).push(digit_char(n % 10))
    }
}

pub open spec fn all_digits(s: Seq<char>) -> bool {
    forall|i: int| 0 <= i < s.len() ==> is_digit(#[trigger] s[i])
}

/// The number that a row of digits stands for.
pub open spec fn digits_value(s: Seq<char>) -> nat
    decreases s.len(),
{
    if s.len() == 0 {
        0
    } else {
        digits_value(s.drop_last()) * 10 + digit_value(s.last())
    }
}

/// `s` without one leading plus sign.
pub open spec fn unsigned_part(s: Seq<char>) -> Seq<char> {
    if s.len() > 0 && s[0] == '+' {
        s.drop_first()
    } else {
        s
    }
}

/// The number up to `max` that `s` spells: at least one digit, after a plus
/// sign or none, and nothing else.
pub open spec fn parsed(s: Seq<char>, max: nat) -> Option<nat> {
    let d = unsigned_part(s);
    if d.len() > 0 && all_digits(d) && digits_value(d) <= max {
        Some(digits_value(d))
    } else {
        None
    }
}

/// A longer row of digits never stands for less.
proof fn lemma_digits_value_grows(s: Seq<char>, n: int)
    requires
        0 <= n <= s.len(),
    ensures
        digits_value(s.take(n)) <= digits_value(s),
    decreases s.len() - n,
{
    if n == s.len() {
        assert(s.take(n) =~= s);
    } else {
        let shorter = s.drop_last();
        lemma_digits_value_grows(shorter, n);
        assert(shorter.take(n) =~= s.take(n));
    }
}

/// A number written in decimal reads back as itself, and its text is a row of
/// digits.
pub proof fn lemma_decimal(n: nat)
    ensures
        decimal(n).len() > 0,
        all_digits(decimal(n)),
        digits_value(decimal(n)) == n,
    decreases n,
{
    reveal_with_fuel(digits_value, 2);
    let last = if n < 10 {
        n
    } else {
        n % 10
    };
    assert(is_digit(digit_char(last)) && digit_value(digit_char(last)) == last);
    if n >= 10 {
        lemma_decimal(n / 10);
        let s = decimal(n);
        assert(s.drop_last() =~= decimal(n / 10));
        assert(s.last() == digit_char(last));
    } else {
        let s = decimal(n);
        assert(s.drop_last() =~= Seq::<char>::empty());
        assert(s.last() == digit_char(last));
    }
}

/// Writing a number and reading it gives the number back.
pub proof fn law_decimal_round_trip(n: nat, max: nat)
    requires
        n <= max,
    ensures
        parsed(decimal(n), max) == Some(n),
{
    lemma_decimal(n);
    assert(is_digit(decimal(n)[0]));
}

/// The unsigned 64-bit number that `text` spells.
pub fn parse_u64(text: &str) -> (res: Option<u64>)
    ensures
        res is Some <==> parsed(text@, u64::MAX as nat) is Some,
        res matches Some(n) ==> parsed(text@, u64::MAX as nat) == Some(n as nat),
{
    let chars = chars_of(text);
    let n: usize = chars.len();
    let start: usize = if n > 0 && chars[0] == '+' {
        1
    } else {
        0
    };
    let ghost d = unsigned_part(text@);
    assert(d =~= text@.skip(start as int));
    if start == n {
        return None;
    }
    let mut value: u64 = 0;
    for i in start..n
        invariant
            start < n,
            n == chars@.len(),
            chars@ == text@,
            d == unsigned_part(text@),
            d == text@.skip(start as int),
            value == digits_value(d.take(i - start)),
            all_digits(d.take(i - start)),
    {
        let c = chars[i];
        let ghost k = i - start;
        assert(d[k] == c);
        if c < '0' || c > '9' {
            return None;
        }
        let digit: u64 = (c as u8 - 48) as u64;
        proof {
            assert(d.take(k + 1).drop_last() =~= d.take(k));
            assert(d.take(k + 1).last() == c);
            assert(digit == digit_value(c));
            assert forall|j: int| 0 <= j < k + 1 implies is_digit(#[trigger] d.take(k + 1)[j]) by {
                if j < k {
                    assert(d.take(k + 1)[j] == d.take(k)[j]);
                }
            }
            lemma_digits_value_grows(d, k + 1);
        }
        if value > 1844674407370955161 || (value == 1844674407370955161 && digit > 5) {
            return None;
        }
        value = value * 10 + digit;
    }
    assert(d.take(n - start) =~= d);
    Some(value)
}

/// The unsigned 32-bit number that `text` spells.
pub fn parse_u32(text: &str) -> (res: Option<u32>)
    ensures
        res is Some <==> parsed(text@, u32::MAX as nat) is Some,
        res matches Some(n) ==> parsed(text@, u32::MAX as nat) == Some(n as nat),
{
    match parse_u64(text) {
        Some(n) => if n <= u32::MAX as u64 {
            Some(n as u32)
        } else {
            None
        },
        None => None,
    }
}

/// `n` in decimal.
pub fn decimal_text(n: u64) -> (res: String)
    ensures
        res@ == decimal(n as nat),
    decreases n,
{
    if n < 10 {
        let mut res = String::new();
        res.push((48 + n as u8) as char);
        assert(res@ =~= seq![digit_char(n as nat)]);
        res
    } else {
        let mut res = decimal_text(n / 10);
        res.push((48 + (n % 10) as u8) as char);
        res
    }
}

// ---------------------------------------------------------------------------
// Laws
// ---------------------------------------------------------------------------

/// White space is what Unicode calls so: the five control characters from the
/// tabulator to the carriage return, the space, the next line, the two no-break
/// spaces, the spaces of typography, and the two separators.
pub proof fn law_white_space(c: char)
    ensures
        ({
            let n = c as u32;
            is_white(c) <==> (9 <= n <= 13 || n == 32 || n == 133 || n == 160 || n == 5760 || 8192
                <= n <= 8202 || n == 8232 || n == 8233 || n == 8239 || n == 8287 || n == 12288)
        }),
{
}

/// The capital letters of ASCII become the small ones, 32 places on; no other
/// character changes, and a text is changed character by character.
pub proof fn law_lower_case(s: Seq<char>, i: int)
    requires
        0 <= i < s.len(),
    ensures
        lower(s).len() == s.len(),
        65 <= s[i] as u32 <= 90 ==> lower(s)[i] as u32 == s[i] as u32 + 32,
        !(65 <= s[i] as u32 <= 90) ==> lower(s)[i] == s[i],
        lower(lower(s)) == lower(s),
{
    assert(lower(lower(s)) =~= lower(s));
}

/// The white space around a text goes, and nothing else does.
pub proof fn law_trimmed(front: Seq<char>, s: Seq<char>, back: Seq<char>)
    requires
        forall|i: int| 0 <= i < front.len() ==> is_white(#[trigger] front[i]),
        forall|i: int| 0 <= i < back.len() ==> is_white(#[trigger] back[i]),
        s.len() > 0 ==> !is_white(s[0]) && !is_white(s.last()),
    ensures
        trimmed(front + s + back) == s,
{
    let all = front + s + back;
    let (a, b) = if s.len() > 0 {
        (front.len() as int, front.len() + s.len() as int)
    } else {
        (all.len() as int, all.len() as int)
    };
    assert forall|i: int| 0 <= i < a implies #[trigger] white()(all[i]) by {
        if i < front.len() {
            assert(all[i] == front[i]);
        } else {
            assert(all[i] == back[i - front.len()]);
        }
    }
    assert forall|i: int| b <= i < all.len() implies #[trigger] white()(all[i]) by {
        assert(all[i] == back[i - b]);
    }
    if s.len() > 0 {
        assert(all[a] == s[0]);
        assert(all[b - 1] == s.last());
    }
    lemma_trim_both_at(all, white(), a, b);
    assert(all.subrange(a, b) =~= s);
}

/// What is joined by a text is what stands in the parts, with that text between
/// two of them and nowhere else.
pub proof fn law_joined(parts: Seq<Seq<char>>, more: Seq<Seq<char>>, part: Seq<char>, sep: Seq<char>)
    ensures
        join(Seq::empty(), sep) == Seq::<char>::empty(),
        join(seq![part], sep) == part,
        parts.len() > 0 && more.len() > 0 ==> join(parts + more, sep) == join(parts, sep) + sep
            + join(more, sep),
    decreases more.len(),
{
    if parts.len() > 0 && more.len() > 0 {
        let shorter = more.drop_last();
        assert((parts + more).drop_last() =~= parts + shorter);
        assert((parts + more).last() == more.last());
        if more.len() > 1 {
            law_joined(parts, shorter, part, sep);
            assert(join(parts + more, sep) =~= join(parts, sep) + sep + join(more, sep));
        } else {
            assert(parts + shorter =~= parts);
        }
    }
}

/// A text that is split at a character and joined by it again is the text it
/// was, and no piece holds the character.
pub proof fn law_split_pieces_rejoin(s: Seq<char>, c: char, k: int)
    ensures
        join(split(s, only(c)), seq![c]) == s,
        0 <= k < split(s, only(c)).len() ==> !split(s, only(c))[k].contains(c),
    decreases s.len(),
{
    let sep = only(c);
    lemma_split_free(s, sep);
    if 0 <= k < split(s, sep).len() {
        let piece = split(s, sep)[k];
        assert forall|i: int| 0 <= i < piece.len() implies #[trigger] piece[i] != c by {
            assert(!sep(split(s, sep)[k][i]));
        }
    }
    if s.len() > 0 {
        let front = s.drop_last();
        lemma_split_len(front, sep);
        law_split_pieces_rejoin(front, c, 0);
        let before = split(front, sep);
        let after = split(s, sep);
        if s.last() == c {
            assert(after.drop_last() =~= before);
            assert(join(after, seq![c]) =~= join(before, seq![c]) + seq![c] + Seq::<char>::empty());
            assert(join(after, seq![c]) =~= s);
        } else {
            let head = before.drop_last();
            assert(after.drop_last() =~= head);
            assert(join(after, seq![c]) =~= join(before, seq![c]).push(s.last()));
            assert(join(after, seq![c]) =~= s);
        }
    } else {
        assert(join(split(s, sep), seq![c]) =~= s);
    }
}

/// A text is its words: white space at its start adds none, and what stands
/// before white space is a word, followed by those of the rest.
pub proof fn law_words(word: Seq<char>, c: char, rest: Seq<char>)
    requires
        word.len() > 0,
        forall|i: int| 0 <= i < word.len() ==> !is_white(#[trigger] word[i]),
        is_white(c),
    ensures
        words(Seq::empty()) == Seq::<Seq<char>>::empty(),
        words(word) == seq![word],
        words(word.push(c) + rest) == seq![word] + words(rest),
        words(seq![c] + rest) == words(rest),
{
    let none = Seq::<char>::empty();
    assert(split(none, white()) =~= seq![none]);
    lemma_split_whole(word, white());
    let filter_one = seq![word].filter(filled());
    let filter_none = seq![none].filter(filled());
    assert(filter_one =~= seq![word] && filter_none =~= Seq::<Seq<char>>::empty()) by {
        reveal_with_fuel(Seq::filter, 2);
        assert(seq![word].drop_last() =~= Seq::<Seq<char>>::empty());
        assert(seq![none].drop_last() =~= Seq::<Seq<char>>::empty());
        assert(Seq::<Seq<char>>::empty().push(word) =~= seq![word]);
    }
    lemma_split_after(word, c, rest);
    Seq::filter_distributes_over_add(seq![word], split(rest, white()), filled());
    lemma_split_whole(none, white());
    lemma_split_after(none, c, rest);
    assert(none.push(c) =~= seq![c]);
    Seq::filter_distributes_over_add(seq![none], split(rest, white()), filled());
    assert(Seq::<Seq<char>>::empty() + words(rest) =~= words(rest));
}

proof fn lemma_split_after(piece: Seq<char>, c: char, rest: Seq<char>)
    requires
        forall|i: int| 0 <= i < piece.len() ==> !is_white(#[trigger] piece[i]),
        is_white(c),
    ensures
        split(piece.push(c) + rest, white()) == seq![piece] + split(rest, white()),
{
    lemma_split_whole(piece, white());
    let closed = piece.push(c);
    assert(closed.drop_last() =~= piece);
    lemma_split_append(closed, rest, white());
    assert(split(closed, white()) =~= seq![piece, Seq::<char>::empty()]);
    assert(split(closed, white()).drop_last() =~= seq![piece]);
    assert(Seq::<char>::empty() + rest =~= rest);
}

/// A line ends with a line break, which is no part of it, nor is a carriage
/// return before the line break. What follows the last line break is a line if
/// it is anything, with whatever ends it.
pub proof fn law_lines(line: Seq<char>, rest: Seq<char>)
    requires
        !line.contains('\n'),
    ensures
        lines(line.push('\n') + rest) == seq![
            if line.len() > 0 && line.last() == '\r' {
                line.take(line.len() - 1)
            } else {
                line
            },
        ] + lines(rest),
        lines(line) == if line.len() > 0 {
            seq![line]
        } else {
            Seq::empty()
        },
{
    let sep = only('\n');
    assert forall|i: int| 0 <= i < line.len() implies !sep(#[trigger] line[i]) by {}
    lemma_split_whole(line, sep);
    let closed = line.push('\n');
    assert(closed.drop_last() =~= line);
    lemma_split_append(closed, rest, sep);
    lemma_split_len(rest, sep);
    assert(split(closed, sep) =~= seq![line, Seq::<char>::empty()]);
    assert(split(closed, sep).drop_last() =~= seq![line]);
    assert(Seq::<char>::empty() + rest =~= rest);
    let all = split(closed + rest, sep);
    let tail = split(rest, sep);
    assert(all == seq![line] + tail);
    let cut = |piece: Seq<char>| without_return(piece);
    assert(all.drop_last() =~= seq![line] + tail.drop_last());
    assert((seq![line] + tail.drop_last()).map_values(cut) =~= seq![without_return(line)]
        + tail.drop_last().map_values(cut));
    assert(all.last() == tail.last());
    if line.len() > 0 {
        assert(line.take(line.len() - 1) =~= line.drop_last());
    }
    assert(lines(closed + rest) =~= seq![without_return(line)] + lines(rest));
    assert(seq![line].drop_last().map_values(cut) =~= Seq::<Seq<char>>::empty());
    assert(lines(line) =~= if line.len() > 0 {
        seq![line]
    } else {
        Seq::empty()
    });
}

/// A text holds what it is put together with, wherever that stands.
pub proof fn law_holds_its_parts(before: Seq<char>, needle: Seq<char>, behind: Seq<char>)
    ensures
        contains(before + needle + behind, needle),
        starts_with(needle + behind, needle),
{
    let s = before + needle + behind;
    assert(s.subrange(before.len() as int, before.len() + needle.len() as int) =~= needle);
    assert(occurs_at(s, needle, before.len() as int));
    assert((needle + behind).subrange(0, needle.len() as int) =~= needle);
}

/// A text that holds another can be taken apart so that the other stands between
/// the rest; one that begins with another has nothing before it.
pub proof fn law_what_is_held_can_be_cut_out(s: Seq<char>, needle: Seq<char>) -> (at: int)
    requires
        contains(s, needle),
    ensures
        0 <= at <= s.len() - needle.len(),
        s == s.take(at) + needle + s.skip(at + needle.len()),
        starts_with(s, needle) ==> s == needle + s.skip(needle.len() as int),
{
    let at = choose|at: int| #[trigger] occurs_at(s, needle, at);
    let n = needle.len() as int;
    assert(s =~= s.take(at) + s.subrange(at, at + n) + s.skip(at + n));
    if starts_with(s, needle) {
        assert(s =~= s.subrange(0, n) + s.skip(n));
    }
    at
}

/// A number is read digit by digit: a digit behind the digits of a number makes
/// it ten times as much and the digit more, unless that is beyond the largest
/// number. A plus sign may stand before it. Without a digit, and with anything
/// else among them, it is none.
pub proof fn law_numbers_are_read(s: Seq<char>, c: char, max: nat)
    ensures
        parsed(Seq::empty(), max) is None,
        parsed(seq!['+'], max) is None,
        48 <= c as u32 <= 57 ==> parsed(seq![c], max) == if c as u32 - 48 <= max {
            Some((c as u32 - 48) as nat)
        } else {
            None
        },
        48 <= c as u32 <= 57 ==> match parsed(s, max) {
            Some(n) => parsed(s.push(c), max) == if 10 * n + (c as u32 - 48) <= max {
                Some((10 * n + (c as u32 - 48)) as nat)
            } else {
                None
            },
            None => s.len() >= 2 ==> parsed(s.push(c), max) is None,
        },
        !(48 <= c as u32 <= 57) && (s.len() > 0 || c != '+') ==> parsed(s.push(c), max) is None,
        s.len() > 0 && s[0] != '+' ==> parsed(seq!['+'] + s, max) == parsed(s, max),
{
    let plus = seq!['+'];
    assert(plus.drop_first() =~= Seq::<char>::empty());
    let one = seq![c];
    assert(one.drop_last() =~= Seq::<char>::empty());
    reveal_with_fuel(digits_value, 2);
    let longer = s.push(c);
    let d = unsigned_part(s);
    let e = unsigned_part(longer);
    assert((plus + s).drop_first() =~= s);
    if s.len() > 0 {
        assert(longer[0] == s[0]);
        assert(s[0] == '+' ==> longer.drop_first() =~= s.drop_first().push(c));
        assert(e =~= d.push(c));
        assert(e.drop_last() =~= d);
        assert(e.last() == c);
        assert forall|i: int| 0 <= i < d.len() implies #[trigger] d[i] == e[i] by {}
        if all_digits(e) {
            assert forall|i: int| 0 <= i < d.len() implies is_digit(#[trigger] d[i]) by {
                assert(is_digit(e[i]));
            }
            assert(is_digit(e[d.len() as int]));
        }
        if all_digits(d) && is_digit(c) {
            assert forall|i: int| 0 <= i < e.len() implies is_digit(#[trigger] e[i]) by {
                if i < d.len() {
                    assert(is_digit(d[i]));
                }
            }
        }
    } else {
        assert(longer =~= one);
        assert(longer[0] == c);
        if c != '+' {
            assert(!is_digit(c) ==> !all_digits(one)) by {
                assert(one[0] == c);
            }
        }
    }
}

/// A number is written digit by digit, without noughts before it.
pub proof fn law_numbers_are_written(n: nat, d: nat)
    requires
        d < 10,
    ensures
        decimal(d).len() == 1,
        decimal(d)[0] as u32 == 48 + d,
        n > 0 ==> decimal(10 * n + d) == decimal(n) + decimal(d),
{
    if n > 0 {
        let m = 10 * n + d;
        assert(m / 10 == n && m % 10 == d);
        assert(decimal(m) =~= decimal(n) + decimal(d));
    }
}

proof fn lemma_front_keeps_rest(s: Seq<char>, i: int)
    requires
        0 <= i < s.len(),
        !is_white(s[i]),
    ensures
        ({
            let kept = trim_front(s, white());
            &&& kept.len() <= s.len()
            &&& s.len() - kept.len() <= i
            &&& kept == s.skip(s.len() - kept.len())
        }),
    decreases s.len(),
{
    if is_white(s[0]) {
        let rest = s.drop_first();
        assert(rest[i - 1] == s[i]);
        lemma_front_keeps_rest(rest, i - 1);
        let kept = trim_front(rest, white());
        assert(kept =~= s.skip(s.len() - kept.len()));
    } else {
        assert(s.skip(0) =~= s);
    }
}

/// Nothing is left of a text without the white space around it exactly where it
/// is white space all through.
pub proof fn law_blank(s: Seq<char>)
    ensures
        trimmed(s).len() == 0 <==> (forall|i: int|
            0 <= i < s.len() ==> is_white(#[trigger] s[i])),
{
    if forall|i: int| 0 <= i < s.len() ==> is_white(#[trigger] s[i]) {
        let n = s.len() as int;
        assert forall|i: int| 0 <= i < n implies #[trigger] white()(s[i]) by {}
        lemma_trim_both_at(s, white(), n, n);
    } else {
        let i = choose|i: int| 0 <= i < s.len() && !is_white(#[trigger] s[i]);
        let kept = trim_front(s, white());
        lemma_front_keeps_rest(s, i);
        lemma_trim_back(kept, white());
        if trim_back(kept, white()).len() == 0 {
            let j = i - (s.len() - kept.len());
            assert(kept[j] == s[i]);
            assert(white()(kept[j]));
        }
    }
}

} // verus!
