//! What a transcript gives away: telephone numbers, addresses and names.

use crate::json;
use crate::json::JsonTree;
use crate::text;
use serde_json::Value;
use vstd::prelude::*;

verus! {

// ---------------------------------------------------------------------------
// Telephone numbers
// ---------------------------------------------------------------------------

/// A character that a telephone number is written with.
pub open spec fn in_phone(c: char) -> bool {
    text::is_digit(c) || c == '+' || c == '(' || c == ')' || c == '-' || c == ' '
}

pub open spec fn not_in_phone() -> spec_fn(char) -> bool {
    |c: char| !in_phone(c)
}

/// How many digits `s` holds.
pub open spec fn digit_count(s: Seq<char>) -> nat
    decreases s.len(),
{
    if s.len() == 0 {
        0
    } else {
        digit_count(s.drop_last()) + if text::is_digit(s.last()) {
            1nat
        } else {
            0
        }
    }
}

/// The runs of telephone characters with at least seven digits.
pub open spec fn is_phone() -> spec_fn(Seq<char>) -> bool {
    |run: Seq<char>| digit_count(run) >= 7
}

/// The telephone numbers of `s`: the runs of telephone characters that another
/// character ends and that hold at least seven digits, without white space at
/// either end.
pub open spec fn phones_in(s: Seq<char>) -> Seq<Seq<char>> {
    text::split(s, not_in_phone()).drop_last().filter(is_phone()).map_values(
        |run: Seq<char>| text::trimmed(run),
    )
}

/// The telephone numbers of `text`.
pub fn extract_phone_like_values(text: &str) -> (res: Vec<String>)
    ensures
        text::texts(res@) == phones_in(text@),
{
    let chars = text::chars_of(text);
    let n: usize = chars.len();
    let mut values: Vec<String> = Vec::new();
    let mut current: Vec<char> = Vec::new();
    let mut digits: usize = 0;
    let ghost mut ended: Seq<Seq<char>> = Seq::empty();
    proof {
        reveal(Seq::filter);
        assert(chars@.take(0) =~= Seq::<char>::empty());
        assert(text::split(Seq::<char>::empty(), not_in_phone()).drop_last() =~= ended);
        assert(text::texts(values@) =~= ended.filter(is_phone()).map_values(
            |run: Seq<char>| text::trimmed(run),
        ));
    }
    for i in 0..n
        invariant
            n == chars@.len(),
            chars@ == text@,
            text::split(text@.take(i as int), not_in_phone()).len() >= 1,
            ended == text::split(text@.take(i as int), not_in_phone()).drop_last(),
            current@ == text::split(text@.take(i as int), not_in_phone()).last(),
            digits == digit_count(current@),
            digits <= i,
            text::texts(values@) == ended.filter(is_phone()).map_values(
                |run: Seq<char>| text::trimmed(run),
            ),
    {
        let c = chars[i];
        let ghost before = text::split(text@.take(i as int), not_in_phone());
        proof {
            assert(text@.take(i + 1).drop_last() =~= text@.take(i as int));
        }
        let is_digit = '0' <= c && c <= '9';
        if is_digit || c == '+' || c == '(' || c == ')' || c == '-' || c == ' ' {
            if is_digit {
                digits += 1;
            }
            let ghost run = current@;
            current.push(c);
            proof {
                assert(current@.drop_last() =~= run);
                assert(before.drop_last().push(before.last().push(c)).drop_last()
                    =~= before.drop_last());
            }
        } else {
            let ghost run = current@;
            let ghost old_values = values@;
            proof {
                reveal(Seq::filter);
                assert(before.push(Seq::<char>::empty()).drop_last() =~= before);
                assert(before.drop_last() =~= ended);
                assert(before.last() == run);
            }
            if digits >= 7 {
                let value = text::text_of(text::trim_chars(current.as_slice()).as_slice());
                let ghost held = value@;
                values.push(value);
                proof {
                    assert(text::texts(values@) =~= text::texts(old_values).push(held));
                    assert(before.filter(is_phone()) =~= ended.filter(is_phone()).push(run));
                    assert(before.filter(is_phone()).map_values(
                        |run: Seq<char>| text::trimmed(run),
                    ) =~= text::texts(values@));
                }
            }
            current.clear();
            digits = 0;
            proof {
                ended = before;
            }
        }
    }
    assert(text@.take(n as int) =~= text@);
    values
}

// ---------------------------------------------------------------------------
// Addresses
// ---------------------------------------------------------------------------

/// Punctuation that may stand around an address.
pub open spec fn is_edge(c: char) -> bool {
    c == ',' || c == '.' || c == ';' || c == ')' || c == '(' || c == '"'
}

pub open spec fn edge() -> spec_fn(char) -> bool {
    |c: char| is_edge(c)
}

/// A word without the punctuation around it.
pub open spec fn bare(token: Seq<char>) -> Seq<char> {
    text::trim_both(token, edge())
}

fn is_edge_char(c: char) -> (res: bool)
    ensures
        res == is_edge(c),
{
    c == ',' || c == '.' || c == ';' || c == ')' || c == '(' || c == '"'
}

/// A word without the punctuation around it.
fn bare_token(token: &str) -> (res: String)
    ensures
        res@ == bare(token@),
{
    let chars = text::chars_of(token);
    let n: usize = chars.len();
    let mut a: usize = 0;
    while a < n && is_edge_char(chars[a])
        invariant
            a <= n,
            n == chars@.len(),
            forall|i: int| 0 <= i < a ==> #[trigger] is_edge(chars@[i]),
        decreases n - a,
    {
        a += 1;
    }
    let mut b: usize = n;
    while b > a && is_edge_char(chars[b - 1])
        invariant
            a <= b <= n,
            n == chars@.len(),
            forall|i: int| b <= i < n ==> #[trigger] is_edge(chars@[i]),
        decreases b,
    {
        b -= 1;
    }
    proof {
        text::lemma_trim_both_at(chars@, edge(), a as int, b as int);
    }
    text::text_of(text::copy_range(chars.as_slice(), a, b).as_slice())
}

/// A bare word that looks like a web address: it says so at its start, or it
/// holds a dot but no at sign and takes more than four bytes.
pub open spec fn looks_like_url(word: Seq<char>) -> bool {
    let low = text::lower(word);
    ||| text::starts_with(low, "http://"@)
    ||| text::starts_with(low, "https://"@)
    ||| text::starts_with(low, "www."@)
    ||| low.contains('.') && !low.contains('@') && text::utf8_len(low) > 4
}

/// The web address that a word is, if it looks like one.
pub open spec fn url_in(token: Seq<char>) -> Option<Seq<char>> {
    if looks_like_url(bare(token)) {
        Some(bare(token))
    } else {
        None
    }
}

/// The mail address that a word is, if it looks like one.
pub open spec fn email_in(token: Seq<char>) -> Option<Seq<char>> {
    if bare(token).contains('@') && bare(token).contains('.') {
        Some(bare(token))
    } else {
        None
    }
}

/// The web address that a word is, if it looks like one.
pub fn normalize_url_like(token: &str) -> (res: Option<String>)
    ensures
        res is Some <==> url_in(token@) is Some,
        res matches Some(url) ==> url_in(token@) == Some(url@),
{
    let word = bare_token(token);
    let low = text::to_ascii_lowercase(word.as_str());
    let low = low.as_str();
    if text::starts_with_text(low, "http://") || text::starts_with_text(low, "https://")
        || text::starts_with_text(low, "www.") || (text::contains_char(low, '.')
        && !text::contains_char(low, '@') && text::byte_len(low) > 4) {
        Some(word)
    } else {
        None
    }
}

/// The mail address that a word is, if it looks like one.
pub fn normalize_email_like(token: &str) -> (res: Option<String>)
    ensures
        res is Some <==> email_in(token@) is Some,
        res matches Some(email) ==> email_in(token@) == Some(email@),
{
    let word = bare_token(token);
    if text::contains_char(word.as_str(), '@') && text::contains_char(word.as_str(), '.') {
        Some(word)
    } else {
        None
    }
}

/// A kind of address.
#[derive(Clone, Copy, Debug, PartialEq, Eq, Structural)]
pub enum AddressKind {
    Web,
    Mail,
}

/// The address of a kind that a word is, if it looks like one.
pub open spec fn address_in(kind: AddressKind, token: Seq<char>) -> Option<Seq<char>> {
    match kind {
        AddressKind::Web => url_in(token),
        AddressKind::Mail => email_in(token),
    }
}

/// The addresses of a kind among words.
pub open spec fn addresses_in(kind: AddressKind, tokens: Seq<Seq<char>>) -> Seq<Seq<char>>
    decreases tokens.len(),
{
    if tokens.len() == 0 {
        Seq::empty()
    } else {
        let before = addresses_in(kind, tokens.drop_last());
        match address_in(kind, tokens.last()) {
            Some(address) => before.push(address),
            None => before,
        }
    }
}

/// The addresses of a kind among words.
fn collect_addresses(kind: AddressKind, tokens: &[String]) -> (res: Vec<String>)
    ensures
        text::texts(res@) == addresses_in(kind, text::texts(tokens@)),
{
    let mut res: Vec<String> = Vec::new();
    let n: usize = tokens.len();
    let ghost all = text::texts(tokens@);
    assert(text::texts(res@) =~= Seq::<Seq<char>>::empty());
    for i in 0..n
        invariant
            n == tokens@.len(),
            all == text::texts(tokens@),
            text::texts(res@) == addresses_in(kind, all.take(i as int)),
    {
        proof {
            assert(all.take(i + 1).drop_last() =~= all.take(i as int));
            assert(all.take(i + 1).last() == tokens@[i as int]@);
        }
        let found = match kind {
            AddressKind::Web => normalize_url_like(tokens[i].as_str()),
            AddressKind::Mail => normalize_email_like(tokens[i].as_str()),
        };
        match found {
            Some(address) => {
                let ghost old_res = res@;
                let ghost held = address@;
                res.push(address);
                assert(text::texts(res@) =~= text::texts(old_res).push(held));
            },
            None => {},
        }
    }
    assert(all.take(n as int) =~= all);
    res
}

// ---------------------------------------------------------------------------
// Organisations
// ---------------------------------------------------------------------------

/// What an organisation is called in lower case, and its name.
pub open spec fn organisations() -> Seq<(Seq<char>, Seq<char>)> {
    seq![
        ("amazon"@, "Amazon"@),
        ("apple"@, "Apple"@),
        ("bank of america"@, "Bank of America"@),
        ("coinbase"@, "Coinbase"@),
        ("irs"@, "IRS"@),
        ("microsoft"@, "Microsoft"@),
        ("paypal"@, "PayPal"@),
        ("social security"@, "Social Security Administration"@),
        ("wells fargo"@, "Wells Fargo"@),
        ("zelle"@, "Zelle"@),
    ]
}

/// The names of the organisations of a list that stand in `low`.
pub open spec fn named_in(low: Seq<char>, list: Seq<(Seq<char>, Seq<char>)>) -> Seq<Seq<char>>
    decreases list.len(),
{
    if list.len() == 0 {
        Seq::empty()
    } else {
        let before = named_in(low, list.drop_last());
        if text::contains(low, list.last().0) {
            before.push(list.last().1)
        } else {
            before
        }
    }
}

/// The known organisations that `s` speaks of.
pub open spec fn organisations_in(s: Seq<char>) -> Seq<Seq<char>> {
    named_in(text::lower(s), organisations())
}

/// The known organisations that `text` speaks of.
pub fn known_organisations(text: &str) -> (res: Vec<String>)
    ensures
        text::texts(res@) == organisations_in(text@),
{
    let low = text::to_ascii_lowercase(text);
    let list: Vec<(&'static str, &'static str)> = vec![
        ("amazon", "Amazon"),
        ("apple", "Apple"),
        ("bank of america", "Bank of America"),
        ("coinbase", "Coinbase"),
        ("irs", "IRS"),
        ("microsoft", "Microsoft"),
        ("paypal", "PayPal"),
        ("social security", "Social Security Administration"),
        ("wells fargo", "Wells Fargo"),
        ("zelle", "Zelle"),
    ];
    let ghost known = organisations();
    assert(list@.len() == known.len());
    assert(forall|i: int| 0 <= i < known.len() ==> (#[trigger] list@[i]).0@ == known[i].0
        && list@[i].1@ == known[i].1);
    let n: usize = list.len();
    let mut res: Vec<String> = Vec::new();
    assert(text::texts(res@) =~= Seq::<Seq<char>>::empty());
    for i in 0..n
        invariant
            n == list@.len(),
            n == known.len(),
            low@ == text::lower(text@),
            forall|i: int|
                0 <= i < known.len() ==> (#[trigger] list@[i]).0@ == known[i].0 && list@[i].1@
                    == known[i].1,
            text::texts(res@) == named_in(low@, known.take(i as int)),
    {
        proof {
            assert(known.take(i + 1).drop_last() =~= known.take(i as int));
            assert(known.take(i + 1).last() == known[i as int]);
        }
        if text::contains_text(low.as_str(), list[i].0) {
            let ghost old_res = res@;
            res.push(list[i].1.to_owned());
            assert(text::texts(res@) =~= text::texts(old_res).push(known[i as int].1));
        }
    }
    assert(known.take(n as int) =~= known);
    res
}

// ---------------------------------------------------------------------------
// Without repetition
// ---------------------------------------------------------------------------

/// The values in the order in which each first occurs.
pub open spec fn distinct(values: Seq<Seq<char>>) -> Seq<Seq<char>>
    decreases values.len(),
{
    if values.len() == 0 {
        Seq::empty()
    } else {
        let before = distinct(values.drop_last());
        if before.contains(values.last()) {
            before
        } else {
            before.push(values.last())
        }
    }
}

fn holds(values: &[String], value: &str) -> (res: bool)
    ensures
        res == text::texts(values@).contains(value@),
{
    let n: usize = values.len();
    for i in 0..n
        invariant
            n == values@.len(),
            forall|j: int| 0 <= j < i ==> text::texts(values@)[j] != value@,
    {
        if text::same_text(values[i].as_str(), value) {
            assert(text::texts(values@)[i as int] == value@);
            return true;
        }
    }
    false
}

/// The values in the order in which each first occurs.
pub fn unique(values: Vec<String>) -> (res: Vec<String>)
    ensures
        text::texts(res@) == distinct(text::texts(values@)),
{
    let ghost all = text::texts(values@);
    let n: usize = values.len();
    let mut res: Vec<String> = Vec::new();
    assert(text::texts(res@) =~= Seq::<Seq<char>>::empty());
    for i in 0..n
        invariant
            n == values@.len(),
            all == text::texts(values@),
            text::texts(res@) == distinct(all.take(i as int)),
    {
        proof {
            assert(all.take(i + 1).drop_last() =~= all.take(i as int));
            assert(all.take(i + 1).last() == values@[i as int]@);
        }
        if !holds(res.as_slice(), values[i].as_str()) {
            let ghost old_res = res@;
            res.push(values[i].clone());
            assert(text::texts(res@) =~= text::texts(old_res).push(values@[i as int]@));
        }
    }
    assert(all.take(n as int) =~= all);
    res
}

/// Without repetition every value that was there is still there, nothing else
/// is, and nothing is there twice.
pub proof fn law_distinct(values: Seq<Seq<char>>)
    ensures
        distinct(values).no_duplicates(),
        forall|value: Seq<char>|
            #[trigger] distinct(values).contains(value) <==> values.contains(value),
    decreases values.len(),
{
    if values.len() > 0 {
        let shorter = values.drop_last();
        law_distinct(shorter);
        let before = distinct(shorter);
        let after = distinct(values);
        assert forall|value: Seq<char>| #[trigger]
            after.contains(value) <==> values.contains(value) by {
            if after.contains(value) {
                let k = choose|k: int| 0 <= k < after.len() && after[k] == value;
                if k < before.len() && after[k] == before[k] {
                    assert(before.contains(value));
                    let j = choose|j: int| 0 <= j < shorter.len() && shorter[j] == value;
                    assert(values[j] == value);
                } else {
                    assert(values[values.len() - 1] == value);
                }
            }
            if values.contains(value) {
                let j = choose|j: int| 0 <= j < values.len() && values[j] == value;
                if j < shorter.len() {
                    assert(shorter[j] == value);
                    assert(before.contains(value));
                    let k = choose|k: int| 0 <= k < before.len() && before[k] == value;
                    assert(after[k] == value);
                } else if !before.contains(value) {
                    assert(after[after.len() - 1] == value);
                }
            }
        }
    }
}

/// Taking out repetitions twice is the same as once, and values without
/// repetitions stay as they are.
pub proof fn law_distinct_once(values: Seq<Seq<char>>)
    ensures
        distinct(distinct(values)) == distinct(values),
        values.no_duplicates() ==> distinct(values) == values,
{
    law_distinct(values);
    lemma_distinct_stays(distinct(values));
    if values.no_duplicates() {
        lemma_distinct_stays(values);
    }
}

proof fn lemma_distinct_stays(values: Seq<Seq<char>>)
    requires
        values.no_duplicates(),
    ensures
        distinct(values) == values,
    decreases values.len(),
{
    if values.len() > 0 {
        let shorter = values.drop_last();
        assert(shorter.no_duplicates());
        lemma_distinct_stays(shorter);
        assert(!shorter.contains(values.last()));
        assert(shorter.push(values.last()) =~= values);
    }
}

// ---------------------------------------------------------------------------
// All of it
// ---------------------------------------------------------------------------

/// What a transcript gives away.
pub struct Entities {
    pub phones: Vec<String>,
    pub urls: Vec<String>,
    pub emails: Vec<String>,
    pub organisations: Vec<String>,
}

/// What was found in a transcript.
pub ghost struct Findings {
    pub phones: Seq<Seq<char>>,
    pub urls: Seq<Seq<char>>,
    pub emails: Seq<Seq<char>>,
    pub organisations: Seq<Seq<char>>,
}

impl View for Entities {
    type V = Findings;

    open spec fn view(&self) -> Findings {
        Findings {
            phones: text::texts(self.phones@),
            urls: text::texts(self.urls@),
            emails: text::texts(self.emails@),
            organisations: text::texts(self.organisations@),
        }
    }
}

/// What a text gives away, nothing twice.
pub open spec fn entities_in(s: Seq<char>) -> Findings {
    Findings {
        phones: distinct(phones_in(s)),
        urls: distinct(addresses_in(AddressKind::Web, text::words(s))),
        emails: distinct(addresses_in(AddressKind::Mail, text::words(s))),
        organisations: distinct(organisations_in(s)),
    }
}

/// What `text` gives away.
pub fn extract_entities(text: &str) -> (res: Entities)
    ensures
        res@ == entities_in(text@),
{
    let words = text::split_whitespace(text);
    Entities {
        phones: unique(extract_phone_like_values(text)),
        urls: unique(collect_addresses(AddressKind::Web, words.as_slice())),
        emails: unique(collect_addresses(AddressKind::Mail, words.as_slice())),
        organisations: unique(known_organisations(text)),
    }
}

/// A list of texts as JSON.
pub open spec fn text_list(values: Seq<Seq<char>>) -> JsonTree {
    JsonTree::Array(values.map_values(|value: Seq<char>| JsonTree::Text(value)))
}

fn text_list_value(values: &[String]) -> (res: Value)
    ensures
        json::json_tree(res) == text_list(text::texts(values@)),
{
    let ghost wanted = text::texts(values@).map_values(|value: Seq<char>| JsonTree::Text(value));
    let n: usize = values.len();
    let mut list: Vec<Value> = Vec::new();
    for i in 0..n
        invariant
            n == values@.len(),
            wanted == text::texts(values@).map_values(|value: Seq<char>| JsonTree::Text(value)),
            json::value_trees(list@) == wanted.take(i as int),
    {
        let ghost old_list = list@;
        let value = json::text_value(values[i].as_str());
        list.push(value);
        assert(json::value_trees(list@) =~= json::value_trees(old_list).push(
            json::json_tree(value),
        ));
        assert(wanted.take(i + 1) =~= wanted.take(i as int).push(wanted[i as int]));
    }
    assert(wanted.take(n as int) =~= wanted);
    json::array_value(list)
}

/// Findings as JSON.
pub open spec fn entities_tree(found: Findings) -> JsonTree {
    json::object(
        seq![
            ("phones"@, text_list(found.phones)),
            ("urls"@, text_list(found.urls)),
            ("emails"@, text_list(found.emails)),
            ("organisations"@, text_list(found.organisations)),
        ],
    )
}

impl Entities {
    /// The findings as JSON.
    pub fn to_json(&self) -> (res: Value)
        ensures
            json::json_tree(res) == entities_tree(self@),
    {
        let mut entries: Vec<(String, Value)> = Vec::new();
        entries.push(json::entry("phones", text_list_value(self.phones.as_slice())));
        entries.push(json::entry("urls", text_list_value(self.urls.as_slice())));
        entries.push(json::entry("emails", text_list_value(self.emails.as_slice())));
        entries.push(
            json::entry("organisations", text_list_value(self.organisations.as_slice())),
        );
        assert(json::entry_trees(entries@) =~= seq![
            ("phones"@, text_list(self@.phones)),
            ("urls"@, text_list(self@.urls)),
            ("emails"@, text_list(self@.emails)),
            ("organisations"@, text_list(self@.organisations)),
        ]);
        json::object_value(entries)
    }
}

proof fn lemma_digits_from_front(s: Seq<char>)
    requires
        s.len() > 0,
    ensures
        digit_count(s) == digit_count(s.drop_first()) + if text::is_digit(s[0]) {
            1nat
        } else {
            0
        },
    decreases s.len(),
{
    reveal_with_fuel(digit_count, 2);
    if s.len() > 1 {
        lemma_digits_from_front(s.drop_last());
        assert(s.drop_last().drop_first() =~= s.drop_first().drop_last());
    } else {
        assert(s.drop_first() =~= Seq::<char>::empty());
        assert(s.drop_last() =~= Seq::<char>::empty());
    }
}

proof fn lemma_front_keeps_digits(s: Seq<char>)
    ensures
        digit_count(text::trim_front(s, text::white())) == digit_count(s),
    decreases s.len(),
{
    if s.len() > 0 && text::is_white(s[0]) {
        lemma_digits_from_front(s);
        lemma_front_keeps_digits(s.drop_first());
    }
}

proof fn lemma_back_keeps_digits(s: Seq<char>)
    ensures
        digit_count(text::trim_back(s, text::white())) == digit_count(s),
    decreases s.len(),
{
    if s.len() > 0 && text::is_white(s.last()) {
        lemma_back_keeps_digits(s.drop_last());
    }
}

/// Every telephone number that is found holds at least seven digits and has no
/// white space at either end.
pub proof fn law_phones_have_seven_digits(s: Seq<char>, i: int)
    requires
        0 <= i < phones_in(s).len(),
    ensures
        digit_count(phones_in(s)[i]) >= 7,
        phones_in(s)[i].len() > 0,
        !text::is_white(phones_in(s)[i][0]),
        !text::is_white(phones_in(s)[i].last()),
{
    let runs = text::split(s, not_in_phone()).drop_last();
    runs.lemma_filter_pred(is_phone(), i);
    let run = runs.filter(is_phone())[i];
    text::lemma_trim_both(run, text::white());
    lemma_front_keeps_digits(run);
    lemma_back_keeps_digits(text::trim_front(run, text::white()));
    assert(phones_in(s)[i] == text::trimmed(run));
}

/// An address that was found is found again as it stands.
pub proof fn law_addresses_are_bare(kind: AddressKind, token: Seq<char>)
    ensures
        bare(bare(token)) == bare(token),
        address_in(kind, token) matches Some(address) ==> address_in(kind, address) == Some(
            address,
        ),
{
    text::lemma_trim_both(token, edge());
}

proof fn lemma_digits_are_counted(s: Seq<char>)
    ensures
        digit_count(s) == s.filter(|c: char| '0' <= c <= '9').len(),
    decreases s.len(),
{
    reveal(Seq::filter);
    if s.len() > 0 {
        lemma_digits_are_counted(s.drop_last());
    }
}

/// The text up to a place where no number is open, and the text from there on,
/// are searched apart.
proof fn lemma_phones_apart(before: Seq<char>, after: Seq<char>)
    requires
        before.len() > 0 ==> !in_phone(before.last()),
    ensures
        phones_in(before + after) == phones_in(before) + phones_in(after),
{
    let sep = not_in_phone();
    text::lemma_split_len(before, sep);
    text::lemma_split_len(after, sep);
    text::lemma_split_append(before, after, sep);
    let head = text::split(before, sep).drop_last();
    let tail = text::split(after, sep).drop_last();
    assert(text::split(before, sep).last() =~= Seq::<char>::empty());
    assert(text::split(before, sep).last() + after =~= after);
    assert(text::split(before + after, sep).drop_last() =~= head + tail);
    Seq::filter_distributes_over_add(head, tail, is_phone());
    let trim = |run: Seq<char>| text::trimmed(run);
    assert((head.filter(is_phone()) + tail.filter(is_phone())).map_values(trim) =~= head.filter(
        is_phone(),
    ).map_values(trim) + tail.filter(is_phone()).map_values(trim));
}

/// Every telephone number is found, and nothing else. A run of digits, plus
/// signs, brackets, hyphens and spaces that begins where the text does or after
/// another character, and that another character ends, is a number exactly where
/// seven of its characters or more are digits. It is found once, without the
/// spaces around it, between the numbers of the text before and those of the text
/// behind it.
pub proof fn law_every_phone_is_found(
    before: Seq<char>,
    lead: Seq<char>,
    number: Seq<char>,
    trail: Seq<char>,
    end: char,
    behind: Seq<char>,
)
    requires
        forall|i: int| 0 <= i < lead.len() ==> #[trigger] lead[i] == ' ',
        forall|i: int| 0 <= i < trail.len() ==> #[trigger] trail[i] == ' ',
        forall|i: int|
            0 <= i < number.len() ==> '0' <= #[trigger] number[i] <= '9' || number[i] == '+'
                || number[i] == '(' || number[i] == ')' || number[i] == '-' || number[i] == ' ',
        number.len() > 0,
        number[0] != ' ',
        number.last() != ' ',
        !('0' <= end <= '9') && end != '+' && end != '(' && end != ')' && end != '-' && end != ' ',
        before.len() > 0 ==> !('0' <= before.last() <= '9') && before.last() != '+'
            && before.last() != '(' && before.last() != ')' && before.last() != '-'
            && before.last() != ' ',
    ensures
        phones_in(before + ((lead + number + trail).push(end) + behind)) == phones_in(before) + (
        if number.filter(|c: char| '0' <= c <= '9').len() >= 7 {
            seq![number]
        } else {
            Seq::empty()
        }) + phones_in(behind),
{
    let sep = not_in_phone();
    let run = lead + number + trail;
    let closed = run.push(end);
    lemma_phones_apart(before, closed + behind);
    lemma_phones_apart(closed, behind);
    assert forall|i: int| 0 <= i < run.len() implies !sep(#[trigger] run[i]) by {
        if i < lead.len() {
            assert(run[i] == lead[i]);
        } else if i < lead.len() + number.len() {
            assert(run[i] == number[i - lead.len()]);
        } else {
            assert(run[i] == trail[i - lead.len() - number.len()]);
        }
    }
    text::lemma_split_whole(run, sep);
    assert(closed.drop_last() =~= run);
    assert(text::split(closed, sep).drop_last() =~= seq![run]);
    let a = lead.len() as int;
    let b = a + number.len();
    assert forall|i: int| 0 <= i < a implies #[trigger] text::white()(run[i]) by {
        assert(run[i] == lead[i]);
    }
    assert forall|i: int| b <= i < run.len() implies #[trigger] text::white()(run[i]) by {
        assert(run[i] == trail[i - b]);
    }
    assert(run[a] == number[0]);
    assert(run[b - 1] == number.last());
    text::lemma_trim_both_at(run, text::white(), a, b);
    assert(run.subrange(a, b) =~= number);
    lemma_front_keeps_digits(run);
    lemma_back_keeps_digits(text::trim_front(run, text::white()));
    lemma_digits_are_counted(number);
    let trim = |run: Seq<char>| text::trimmed(run);
    let found = seq![run].filter(is_phone());
    assert(found == if digit_count(run) >= 7 {
        seq![run]
    } else {
        Seq::empty()
    }) by {
        reveal(Seq::filter);
        reveal_with_fuel(Seq::filter, 2);
        assert(seq![run].drop_last() =~= Seq::<Seq<char>>::empty());
        assert(Seq::<Seq<char>>::empty().push(run) =~= seq![run]);
    }
    assert(seq![run].map_values(trim) =~= seq![number]);
    assert(Seq::<Seq<char>>::empty().map_values(trim) =~= Seq::<Seq<char>>::empty());
    let phones = phones_in(closed);
    assert(phones == if digit_count(run) >= 7 {
        seq![number]
    } else {
        Seq::empty()
    });
    assert(phones_in(before) + (phones + phones_in(behind)) =~= phones_in(before) + phones
        + phones_in(behind));
}

/// A run without a digit at all, be it of spaces alone, is no number: a character
/// that ends it adds nothing.
pub proof fn law_empty_runs_are_no_phones(before: Seq<char>, spaces: Seq<char>, end: char)
    requires
        forall|i: int| 0 <= i < spaces.len() ==> #[trigger] spaces[i] == ' ',
        before.len() > 0 ==> !('0' <= before.last() <= '9') && before.last() != '+'
            && before.last() != '(' && before.last() != ')' && before.last() != '-'
            && before.last() != ' ',
        !('0' <= end <= '9') && end != '+' && end != '(' && end != ')' && end != '-' && end != ' ',
    ensures
        phones_in(before + spaces.push(end)) == phones_in(before),
{
    let sep = not_in_phone();
    let closed = spaces.push(end);
    lemma_phones_apart(before, closed);
    assert forall|i: int| 0 <= i < spaces.len() implies !sep(#[trigger] spaces[i]) by {}
    text::lemma_split_whole(spaces, sep);
    assert(closed.drop_last() =~= spaces);
    assert(text::split(closed, sep).drop_last() =~= seq![spaces]);
    lemma_no_digits(spaces);
    assert(seq![spaces].filter(is_phone()) =~= Seq::<Seq<char>>::empty()) by {
        reveal(Seq::filter);
        reveal_with_fuel(Seq::filter, 2);
        assert(seq![spaces].drop_last() =~= Seq::<Seq<char>>::empty());
    }
    assert(phones_in(closed) =~= Seq::<Seq<char>>::empty());
    assert(phones_in(before) + Seq::<Seq<char>>::empty() =~= phones_in(before));
}

proof fn lemma_no_digits(s: Seq<char>)
    requires
        forall|i: int| 0 <= i < s.len() ==> #[trigger] s[i] == ' ',
    ensures
        digit_count(s) == 0,
    decreases s.len(),
{
    if s.len() > 0 {
        assert(s.last() == s[s.len() - 1]);
        assert forall|i: int| 0 <= i < s.drop_last().len() implies #[trigger] s.drop_last()[i]
            == ' ' by {
            assert(s[i] == ' ');
        }
        lemma_no_digits(s.drop_last());
    }
}

/// A run that no other character ends is no number, however many digits it
/// holds.
pub proof fn law_open_run_is_no_phone(before: Seq<char>, run: Seq<char>)
    requires
        forall|i: int|
            0 <= i < run.len() ==> '0' <= #[trigger] run[i] <= '9' || run[i] == '+' || run[i] == '('
                || run[i] == ')' || run[i] == '-' || run[i] == ' ',
        before.len() > 0 ==> !('0' <= before.last() <= '9') && before.last() != '+'
            && before.last() != '(' && before.last() != ')' && before.last() != '-'
            && before.last() != ' ',
    ensures
        phones_in(before + run) == phones_in(before),
        phones_in(run) == Seq::<Seq<char>>::empty(),
{
    let sep = not_in_phone();
    lemma_phones_apart(before, run);
    assert forall|i: int| 0 <= i < run.len() implies !sep(#[trigger] run[i]) by {}
    text::lemma_split_whole(run, sep);
    assert(text::split(run, sep).drop_last() =~= Seq::<Seq<char>>::empty());
    assert(phones_in(run) =~= Seq::<Seq<char>>::empty()) by {
        reveal(Seq::filter);
    }
    assert(phones_in(before) + Seq::<Seq<char>>::empty() =~= phones_in(before));
}

/// A word is an address but for the commas, full stops, semicolons, brackets and
/// quotation marks around it. It is a mail address where it holds an at sign and
/// a full stop. It is a web address where it begins, in either case, with
/// `http://`, `https://` or `www.`, and also where it holds a full stop but no at
/// sign and takes more than four bytes.
pub proof fn law_addresses_are_found(front: Seq<char>, word: Seq<char>, back: Seq<char>)
    requires
        forall|i: int|
            0 <= i < front.len() ==> #[trigger] front[i] == ',' || front[i] == '.' || front[i]
                == ';' || front[i] == ')' || front[i] == '(' || front[i] == '"',
        forall|i: int|
            0 <= i < back.len() ==> #[trigger] back[i] == ',' || back[i] == '.' || back[i] == ';'
                || back[i] == ')' || back[i] == '(' || back[i] == '"',
        word.len() > 0,
        word[0] != ',' && word[0] != '.' && word[0] != ';' && word[0] != ')' && word[0] != '('
            && word[0] != '"',
        word.last() != ',' && word.last() != '.' && word.last() != ';' && word.last() != ')'
            && word.last() != '(' && word.last() != '"',
    ensures
        ({
            let token = front + word + back;
            let low = text::lower(word);
            &&& email_in(token) == if word.contains('@') && word.contains('.') {
                Some(word)
            } else {
                None
            }
            &&& url_in(token) == if low.len() >= 7 && low.take(7) == "http://"@ || low.len() >= 8
                && low.take(8) == "https://"@ || low.len() >= 4 && low.take(4) == "www."@
                || low.contains('.') && !low.contains('@') && vstd::utf8::encode_utf8(low).len()
                >= 5 {
                Some(word)
            } else {
                None
            }
        }),
{
    let token = front + word + back;
    let low = text::lower(word);
    let a = front.len() as int;
    let b = a + word.len();
    assert forall|i: int| 0 <= i < a implies #[trigger] edge()(token[i]) by {
        assert(token[i] == front[i]);
    }
    assert forall|i: int| b <= i < token.len() implies #[trigger] edge()(token[i]) by {
        assert(token[i] == back[i - b]);
    }
    assert(token[a] == word[0]);
    assert(token[b - 1] == word.last());
    text::lemma_trim_both_at(token, edge(), a, b);
    assert(token.subrange(a, b) =~= word);
    reveal_strlit("http://");
    reveal_strlit("https://");
    reveal_strlit("www.");
    if low.len() >= 7 {
        assert(low.subrange(0, 7) =~= low.take(7));
    }
    if low.len() >= 8 {
        assert(low.subrange(0, 8) =~= low.take(8));
    }
    if low.len() >= 4 {
        assert(low.subrange(0, 4) =~= low.take(4));
    }
}

/// A word that is punctuation all through is no address.
pub proof fn law_punctuation_is_no_address(token: Seq<char>)
    requires
        forall|i: int|
            0 <= i < token.len() ==> #[trigger] token[i] == ',' || token[i] == '.' || token[i]
                == ';' || token[i] == ')' || token[i] == '(' || token[i] == '"',
    ensures
        email_in(token) is None,
        url_in(token) is None,
{
    let n = token.len() as int;
    assert forall|i: int| 0 <= i < n implies #[trigger] edge()(token[i]) by {}
    text::lemma_trim_both_at(token, edge(), n, n);
    let none = Seq::<char>::empty();
    assert(token.subrange(n, n) =~= none);
    assert(text::lower(none) =~= none);
    reveal_strlit("http://");
    reveal_strlit("https://");
    reveal_strlit("www.");
}

/// Words are looked at one by one: the addresses among words are those among the
/// first of them and then those among the rest, and a word alone gives its own
/// address and no other.
pub proof fn law_words_are_searched_one_by_one(
    kind: AddressKind,
    words: Seq<Seq<char>>,
    more: Seq<Seq<char>>,
    word: Seq<char>,
)
    ensures
        addresses_in(kind, words + more) == addresses_in(kind, words) + addresses_in(kind, more),
        addresses_in(kind, Seq::empty()) == Seq::<Seq<char>>::empty(),
        kind == AddressKind::Web ==> addresses_in(kind, seq![word]) == match url_in(word) {
            Some(url) => seq![url],
            None => Seq::empty(),
        },
        kind == AddressKind::Mail ==> addresses_in(kind, seq![word]) == match email_in(word) {
            Some(email) => seq![email],
            None => Seq::empty(),
        },
    decreases more.len(),
{
    reveal_with_fuel(addresses_in, 2);
    assert(seq![word].drop_last() =~= Seq::<Seq<char>>::empty());
    if more.len() == 0 {
        assert(words + more =~= words);
        assert(addresses_in(kind, words) + Seq::<Seq<char>>::empty() =~= addresses_in(kind, words));
    } else {
        law_words_are_searched_one_by_one(kind, words, more.drop_last(), word);
        assert((words + more).drop_last() =~= words + more.drop_last());
        assert((words + more).last() == more.last());
        assert(addresses_in(kind, words + more) =~= addresses_in(kind, words) + addresses_in(
            kind,
            more,
        ));
    }
}

/// What comes again is left out, and what comes for the first time is added at
/// the end.
pub proof fn law_first_of_each_is_kept(values: Seq<Seq<char>>, value: Seq<char>)
    ensures
        distinct(Seq::empty()) == Seq::<Seq<char>>::empty(),
        values.contains(value) ==> distinct(values.push(value)) == distinct(values),
        !values.contains(value) ==> distinct(values.push(value)) == distinct(values).push(value),
{
    law_distinct(values);
    assert(values.push(value).drop_last() =~= values);
}

/// A text gives away each telephone number, address and organisation that is
/// found in it, nothing else, and nothing twice.
pub proof fn law_findings_are_complete(s: Seq<char>, value: Seq<char>)
    ensures
        ({
            let found = entities_in(s);
            &&& found.phones.contains(value) <==> phones_in(s).contains(value)
            &&& found.urls.contains(value) <==> addresses_in(
                AddressKind::Web,
                text::words(s),
            ).contains(value)
            &&& found.emails.contains(value) <==> addresses_in(
                AddressKind::Mail,
                text::words(s),
            ).contains(value)
            &&& found.organisations.contains(value) <==> organisations_in(s).contains(value)
            &&& found.phones.no_duplicates()
            &&& found.urls.no_duplicates()
            &&& found.emails.no_duplicates()
            &&& found.organisations.no_duplicates()
        }),
{
    law_distinct(phones_in(s));
    law_distinct(addresses_in(AddressKind::Web, text::words(s)));
    law_distinct(addresses_in(AddressKind::Mail, text::words(s)));
    law_distinct(organisations_in(s));
}

/// Where a name stands in the text, in either case, its organisation is named,
/// and only there.
proof fn lemma_named_in(low: Seq<char>, list: Seq<(Seq<char>, Seq<char>)>, i: int)
    requires
        0 <= i < list.len(),
        forall|j: int| 0 <= j < list.len() && j != i ==> #[trigger] list[j].1 != list[i].1,
    ensures
        named_in(low, list).contains(list[i].1) <==> text::contains(low, list[i].0),
    decreases list.len(),
{
    let shorter = list.drop_last();
    let before = named_in(low, shorter);
    let after = named_in(low, list);
    let label = list[i].1;
    if i < shorter.len() {
        assert(shorter[i] == list[i]);
        assert forall|j: int| 0 <= j < shorter.len() && j != i implies #[trigger] shorter[j].1
            != shorter[i].1 by {
            assert(list[j].1 != list[i].1);
        }
        lemma_named_in(low, shorter, i);
        assert(list[list.len() - 1].1 != label);
        if after.contains(label) {
            let k = choose|k: int| 0 <= k < after.len() && after[k] == label;
            assert(before[k] == label);
        }
        if before.contains(label) {
            let k = choose|k: int| 0 <= k < before.len() && before[k] == label;
            assert(after[k] == label);
        }
    } else {
        lemma_not_named(low, shorter, label);
        if text::contains(low, list[i].0) {
            assert(after[after.len() - 1] == label);
        }
    }
}

proof fn lemma_not_named(low: Seq<char>, list: Seq<(Seq<char>, Seq<char>)>, label: Seq<char>)
    requires
        forall|j: int| 0 <= j < list.len() ==> #[trigger] list[j].1 != label,
    ensures
        !named_in(low, list).contains(label),
    decreases list.len(),
{
    if list.len() > 0 {
        let shorter = list.drop_last();
        assert(list[list.len() - 1].1 != label);
        assert forall|j: int| 0 <= j < shorter.len() implies #[trigger] shorter[j].1 != label by {
            assert(list[j].1 != label);
        }
        lemma_not_named(low, shorter, label);
        let after = named_in(low, list);
        if after.contains(label) {
            let k = choose|k: int| 0 <= k < after.len() && after[k] == label;
            assert(named_in(low, shorter)[k] == label);
        }
    }
}

/// An organisation is named where what it is called stands in the text, in
/// either case, and only there. There are ten, and a text that speaks of none of
/// them names none.
pub proof fn law_known_organisations_are_named(s: Seq<char>)
    ensures
        ({
            let low = text::lower(s);
            let named = organisations_in(s);
            &&& named.contains("Amazon"@) <==> text::contains(low, "amazon"@)
            &&& named.contains("Apple"@) <==> text::contains(low, "apple"@)
            &&& named.contains("Bank of America"@) <==> text::contains(low, "bank of america"@)
            &&& named.contains("Coinbase"@) <==> text::contains(low, "coinbase"@)
            &&& named.contains("IRS"@) <==> text::contains(low, "irs"@)
            &&& named.contains("Microsoft"@) <==> text::contains(low, "microsoft"@)
            &&& named.contains("PayPal"@) <==> text::contains(low, "paypal"@)
            &&& named.contains("Social Security Administration"@) <==> text::contains(
                low,
                "social security"@,
            )
            &&& named.contains("Wells Fargo"@) <==> text::contains(low, "wells fargo"@)
            &&& named.contains("Zelle"@) <==> text::contains(low, "zelle"@)
            &&& named.len() <= 10
            &&& named.no_duplicates()
        }),
{
    let low = text::lower(s);
    let list = organisations();
    lemma_labels_differ();
    lemma_named_in(low, list, 0);
    lemma_named_in(low, list, 1);
    lemma_named_in(low, list, 2);
    lemma_named_in(low, list, 3);
    lemma_named_in(low, list, 4);
    lemma_named_in(low, list, 5);
    lemma_named_in(low, list, 6);
    lemma_named_in(low, list, 7);
    lemma_named_in(low, list, 8);
    lemma_named_in(low, list, 9);
    lemma_named_once(low, list);
}

proof fn lemma_named_once(low: Seq<char>, list: Seq<(Seq<char>, Seq<char>)>)
    requires
        forall|i: int, j: int|
            0 <= i < j < list.len() ==> #[trigger] list[i].1 != #[trigger] list[j].1,
    ensures
        named_in(low, list).no_duplicates(),
        named_in(low, list).len() <= list.len(),
    decreases list.len(),
{
    if list.len() > 0 {
        let shorter = list.drop_last();
        assert forall|i: int, j: int| 0 <= i < j < shorter.len() implies #[trigger] shorter[i].1
            != #[trigger] shorter[j].1 by {
            assert(list[i].1 != list[j].1);
        }
        lemma_named_once(low, shorter);
        let label = list.last().1;
        assert forall|j: int| 0 <= j < shorter.len() implies #[trigger] shorter[j].1 != label by {
            assert(list[j].1 != list[list.len() - 1].1);
        }
        lemma_not_named(low, shorter, label);
        let before = named_in(low, shorter);
        let after = named_in(low, list);
        assert forall|i: int, j: int|
            0 <= i < after.len() && 0 <= j < after.len() && i != j implies after[i] != after[j] by {
            if i == before.len() {
                assert(before[j] != label);
            } else if j == before.len() {
                assert(before[i] != label);
            }
        }
    }
}

proof fn lemma_labels_differ()
    ensures
        forall|i: int, j: int|
            0 <= i < j < organisations().len() ==> #[trigger] organisations()[i].1
                != #[trigger] organisations()[j].1,
{
    reveal_strlit("Amazon");
    reveal_strlit("Apple");
    reveal_strlit("Bank of America");
    reveal_strlit("Coinbase");
    reveal_strlit("IRS");
    reveal_strlit("Microsoft");
    reveal_strlit("PayPal");
    reveal_strlit("Social Security Administration");
    reveal_strlit("Wells Fargo");
    reveal_strlit("Zelle");
    assert("Amazon"@.len() == 6 && "Amazon"@[0] == 'A');
    assert("Apple"@.len() == 5 && "Apple"@[0] == 'A');
    assert("Bank of America"@.len() == 15);
    assert("Coinbase"@.len() == 8);
    assert("IRS"@.len() == 3);
    assert("Microsoft"@.len() == 9);
    assert("PayPal"@.len() == 6 && "PayPal"@[0] == 'P');
    assert("Social Security Administration"@.len() == 30);
    assert("Wells Fargo"@.len() == 11);
    assert("Zelle"@.len() == 5 && "Zelle"@[0] == 'Z');
}

/// The findings can be read back from JSON: each list under its name, each
/// finding at its place.
pub proof fn law_findings_are_written(found: Findings, i: int)
    ensures
        ({
            let tree = entities_tree(found);
            let phones = tree.member("phones"@);
            let urls = tree.member("urls"@);
            let emails = tree.member("emails"@);
            let organisations = tree.member("organisations"@);
            &&& phones is Some && urls is Some && emails is Some && organisations is Some
            &&& 0 <= i < found.phones.len() ==> phones->0.element(i) == Some(
                JsonTree::Text(found.phones[i]),
            )
            &&& 0 <= i < found.urls.len() ==> urls->0.element(i) == Some(
                JsonTree::Text(found.urls[i]),
            )
            &&& 0 <= i < found.emails.len() ==> emails->0.element(i) == Some(
                JsonTree::Text(found.emails[i]),
            )
            &&& 0 <= i < found.organisations.len() ==> organisations->0.element(i) == Some(
                JsonTree::Text(found.organisations[i]),
            )
            &&& i >= found.phones.len() ==> phones->0.element(i) is None
            &&& i >= found.urls.len() ==> urls->0.element(i) is None
            &&& i >= found.emails.len() ==> emails->0.element(i) is None
            &&& i >= found.organisations.len() ==> organisations->0.element(i) is None
        }),
{
    reveal_strlit("phones");
    reveal_strlit("urls");
    reveal_strlit("emails");
    reveal_strlit("organisations");
    assert("phones"@.len() == 6 && "phones"@[0] == 'p');
    assert("urls"@.len() == 4);
    assert("emails"@.len() == 6 && "emails"@[0] == 'e');
    assert("organisations"@.len() == 13);
    let entries = seq![
        ("phones"@, text_list(found.phones)),
        ("urls"@, text_list(found.urls)),
        ("emails"@, text_list(found.emails)),
        ("organisations"@, text_list(found.organisations)),
    ];
    json::law_object_holds_its_entries(entries, 0);
    json::law_object_holds_its_entries(entries, 1);
    json::law_object_holds_its_entries(entries, 2);
    json::law_object_holds_its_entries(entries, 3);
}

/// What is found in a text begins with the numbers of the text before a run of
/// telephone characters, goes on with the run where it holds seven digits or more,
/// and ends with the numbers behind it.
pub proof fn law_extract_phone_like_values(
    text: &str,
    before: Seq<char>,
    number: Seq<char>,
    end: char,
    behind: Seq<char>,
    res: Vec<String>,
)
    requires
        call_ensures(extract_phone_like_values, (text,), res),
        text@ == before + (number.push(end) + behind),
        forall|i: int|
            0 <= i < number.len() ==> '0' <= #[trigger] number[i] <= '9' || number[i] == '+'
                || number[i] == '(' || number[i] == ')' || number[i] == '-' || number[i] == ' ',
        number.len() > 0,
        number[0] != ' ',
        number.last() != ' ',
        !('0' <= end <= '9') && end != '+' && end != '(' && end != ')' && end != '-' && end != ' ',
        before.len() > 0 ==> !('0' <= before.last() <= '9') && before.last() != '+'
            && before.last() != '(' && before.last() != ')' && before.last() != '-'
            && before.last() != ' ',
    ensures
        ({
            let first = phones_in(before);
            let rest = phones_in(behind);
            let n = first.len() as int;
            &&& number.filter(|c: char| '0' <= c <= '9').len() >= 7 ==> res@.len() == n + 1
                + rest.len() && res@[n]@ == number
            &&& number.filter(|c: char| '0' <= c <= '9').len() < 7 ==> res@.len() == n + rest.len()
        }),
{
    let none = Seq::<char>::empty();
    law_every_phone_is_found(before, none, number, none, end, behind);
    assert(none + number + none =~= number);
    let found = text::texts(res@);
    assert(found.len() == res@.len());
    let n = phones_in(before).len() as int;
    if number.filter(|c: char| '0' <= c <= '9').len() >= 7 {
        assert(found == phones_in(before) + seq![number] + phones_in(behind));
        assert(found[n] == number);
    } else {
        assert(found =~= phones_in(before) + phones_in(behind));
    }
}

/// A word is taken for a mail address by its at sign and its full stop, and for a
/// web address by how it begins, once the punctuation around it is gone.
pub proof fn law_addresses_are_normalised(
    token: &str,
    front: Seq<char>,
    word: Seq<char>,
    back: Seq<char>,
    url: Option<String>,
    email: Option<String>,
)
    requires
        call_ensures(normalize_url_like, (token,), url),
        call_ensures(normalize_email_like, (token,), email),
        token@ == front + word + back,
        forall|i: int|
            0 <= i < front.len() ==> #[trigger] front[i] == ',' || front[i] == '.' || front[i]
                == ';' || front[i] == ')' || front[i] == '(' || front[i] == '"',
        forall|i: int|
            0 <= i < back.len() ==> #[trigger] back[i] == ',' || back[i] == '.' || back[i] == ';'
                || back[i] == ')' || back[i] == '(' || back[i] == '"',
        word.len() > 0,
        word[0] != ',' && word[0] != '.' && word[0] != ';' && word[0] != ')' && word[0] != '('
            && word[0] != '"',
        word.last() != ',' && word.last() != '.' && word.last() != ';' && word.last() != ')'
            && word.last() != '(' && word.last() != '"',
    ensures
        email is Some <==> word.contains('@') && word.contains('.'),
        email matches Some(found) ==> found@ == word,
        url matches Some(found) ==> found@ == word,
        ({
            let low = text::lower(word);
            &&& low.len() >= 4 && low.take(4) == "www."@ ==> url is Some
            &&& low.len() >= 7 && low.take(7) == "http://"@ ==> url is Some
            &&& low.len() >= 8 && low.take(8) == "https://"@ ==> url is Some
            &&& !low.contains('.') && low.len() < 7 ==> url is None
        }),
{
    law_addresses_are_found(front, word, back);
    reveal_strlit("www.");
    reveal_strlit("http://");
    reveal_strlit("https://");
    let low = text::lower(word);
    if low.len() >= 4 && low.take(4) == "www."@ {
        assert(low.take(4)[3] == '.');
        assert(low[3] == '.');
    }
}

/// Nothing is left twice, nothing is lost, and nothing is added.
pub proof fn law_unique(values: Vec<String>, res: Vec<String>, value: Seq<char>)
    requires
        call_ensures(unique, (values,), res),
    ensures
        text::texts(res@).no_duplicates(),
        text::texts(res@).contains(value) <==> text::texts(values@).contains(value),
        res@.len() <= values@.len(),
        text::texts(values@).no_duplicates() ==> text::texts(res@) == text::texts(values@),
{
    law_distinct(text::texts(values@));
    law_distinct_once(text::texts(values@));
    lemma_distinct_is_no_longer(text::texts(values@));
    assert(text::texts(res@).len() == res@.len());
    assert(text::texts(values@).len() == values@.len());
}

proof fn lemma_distinct_is_no_longer(values: Seq<Seq<char>>)
    ensures
        distinct(values).len() <= values.len(),
    decreases values.len(),
{
    if values.len() > 0 {
        lemma_distinct_is_no_longer(values.drop_last());
    }
}

/// A text gives away what is found in it, in each of the four kinds, and nothing
/// twice.
pub proof fn law_extract_entities(text: &str, res: Entities, value: Seq<char>)
    requires
        call_ensures(extract_entities, (text,), res),
    ensures
        text::texts(res.phones@).contains(value) <==> phones_in(text@).contains(value),
        text::texts(res.urls@).contains(value) <==> addresses_in(
            AddressKind::Web,
            text::words(text@),
        ).contains(value),
        text::texts(res.emails@).contains(value) <==> addresses_in(
            AddressKind::Mail,
            text::words(text@),
        ).contains(value),
        text::texts(res.organisations@).contains(value) <==> organisations_in(text@).contains(
            value,
        ),
        text::texts(res.phones@).no_duplicates(),
        text::texts(res.urls@).no_duplicates(),
        text::texts(res.emails@).no_duplicates(),
        text::texts(res.organisations@).no_duplicates(),
{
    law_findings_are_complete(text@, value);
}

} // verus!
