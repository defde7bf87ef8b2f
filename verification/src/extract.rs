//! The extractor: from raw text, and from what a structuring capability made
//! of it, to an ordered list of named quantities.
//!
//! The capability itself is not called here. Its answer, already read into
//! items, is handed in; an absent or unusable answer is replaced by one of
//! two local readings of the raw text, so that extraction never fails.

use crate::number::{bounded_decimal, is_digit, is_digit_char, read_decimal};
use crate::text::{
    back_run_length, chars_of, is_blank, is_space, is_space_char, lemma_back_run_length_is,
    lemma_run_length, lemma_run_length_is, lemma_trimmed, not_space, run_length, text_of,
    trim_bounds, trim_text, trimmed,
};
use vstd::prelude::*;
use vstd::string::StringExecFns;

verus! {

/// One extracted item: what it is and how many.
#[derive(Debug, Clone, PartialEq, Eq)]
pub struct ParsedItem {
    pub name: String,
    pub quantity: i32,
}

/// A `ParsedItem` as plain values.
pub struct ParsedItemView {
    pub name: Seq<char>,
    pub quantity: int,
}

impl View for ParsedItem {
    type V = ParsedItemView;

    open spec fn view(&self) -> ParsedItemView {
        ParsedItemView { name: self.name@, quantity: self.quantity as int }
    }
}

impl ParsedItem {
    /// A usable item has a name and stands for at least one thing.
    pub open spec fn wf(&self) -> bool {
        item_ok(self@)
    }
}

/// Which local reading of the raw text replaces an unusable answer.
#[derive(Debug, Clone, Copy, PartialEq, Eq)]
pub enum Fallback {
    /// The whole text is one item.
    WholeText,
    /// Every line is one item, with a leading count where there is one.
    PerLine,
}

/// A usable item has a name and stands for at least one thing.
pub open spec fn item_ok(item: ParsedItemView) -> bool {
    item.name.len() > 0 && item.quantity >= 1
}

/// The items of a list as plain values, in the same order.
pub open spec fn parsed_view(items: Seq<ParsedItem>) -> Seq<ParsedItemView> {
    items.map_values(|p: ParsedItem| p@)
}

/// The capability's answer as plain values.
pub open spec fn structured_view(answer: Option<Vec<ParsedItem>>) -> Option<Seq<ParsedItemView>> {
    match answer {
        Some(items) => Some(parsed_view(items@)),
        None => None,
    }
}

/// An answer is usable when it lists at least one item and every item of it
/// is usable.
pub open spec fn conforming(items: Seq<ParsedItemView>) -> bool {
    items.len() > 0 && forall|i: int| 0 <= i < items.len() ==> item_ok(#[trigger] items[i])
}

/// The test for anything but a line feed, as a value.
pub open spec fn not_newline() -> spec_fn(char) -> bool {
    |c: char| c != '\n'
}

/// The test for anything but a digit, as a value.
pub open spec fn not_digit() -> spec_fn(char) -> bool {
    |c: char| !is_digit(c)
}

/// Where the first line of `s` ends: at its first line feed, or at its end.
pub open spec fn line_end(s: Seq<char>) -> nat {
    run_length(s, not_newline())
}

/// The length of the first word of `t`: the characters up to the first white
/// space.
pub open spec fn token_len(t: Seq<char>) -> nat {
    run_length(t, not_space())
}

/// `token` without the characters after its last digit.
pub open spec fn digit_stem(token: Seq<char>) -> Seq<char> {
    token.take(token.len() - back_run_length(token, not_digit()))
}

/// The count that a line begins with: its first word, up to the last digit
/// in it, read as a number from 1 to `i32::MAX`.
pub open spec fn leading_quantity(t: Seq<char>) -> Option<int> {
    match bounded_decimal(digit_stem(t.take(token_len(t) as int)), i32::MAX as nat) {
        Some(q) if q >= 1 => Some(q as int),
        _ => None,
    }
}

/// The item that one line stands for. Where the line begins with a count and
/// something follows it, the count is the quantity and what follows is the
/// name. Otherwise the whole line is the name of one thing.
pub open spec fn line_item(t: Seq<char>) -> ParsedItemView {
    let rest = trimmed(t.skip(token_len(t) as int));
    match leading_quantity(t) {
        Some(q) if rest.len() > 0 => ParsedItemView { name: rest, quantity: q },
        _ => ParsedItemView { name: t, quantity: 1 },
    }
}

/// The items of one line: none for a blank line, else the item of the line
/// without the white space around it.
pub open spec fn line_items(line: Seq<char>) -> Seq<ParsedItemView> {
    if is_blank(line) {
        Seq::empty()
    } else {
        seq![line_item(trimmed(line))]
    }
}

/// The line-by-line reading of `s`: the items of its lines, in the order of
/// the lines. Lines end at a line feed.
pub open spec fn per_line_items(s: Seq<char>) -> Seq<ParsedItemView>
    decreases s.len(),
{
    let e = line_end(s) as int;
    if e < s.len() {
        line_items(s.take(e)) + per_line_items(s.skip(e + 1))
    } else {
        line_items(s)
    }
}

/// The reading of `raw` as a single item: the text without the white space
/// around it, once. A blank text holds no item.
pub open spec fn whole_text_items(raw: Seq<char>) -> Seq<ParsedItemView> {
    if is_blank(raw) {
        Seq::empty()
    } else {
        seq![ParsedItemView { name: trimmed(raw), quantity: 1 }]
    }
}

/// The local reading of `raw` that `mode` asks for.
pub open spec fn fallback_items(raw: Seq<char>, mode: Fallback) -> Seq<ParsedItemView> {
    match mode {
        Fallback::WholeText => whole_text_items(raw),
        Fallback::PerLine => per_line_items(raw),
    }
}

/// What extraction yields: the capability's answer where there is one and it
/// is usable, in the capability's order, and else the local reading of the
/// raw text.
pub open spec fn extracted(
    raw: Seq<char>,
    answer: Option<Seq<ParsedItemView>>,
    mode: Fallback,
) -> Seq<ParsedItemView> {
    match answer {
        Some(items) if conforming(items) => items,
        _ => fallback_items(raw, mode),
    }
}

/// The item of a line that is not empty is usable.
pub proof fn lemma_line_item_ok(t: Seq<char>)
    requires
        t.len() > 0,
    ensures
        item_ok(line_item(t)),
{
}

/// Every item of the line-by-line reading is usable, and a text that is not
/// blank yields at least one.
pub proof fn lemma_per_line_items(s: Seq<char>)
    ensures
        forall|i: int|
            0 <= i < per_line_items(s).len() ==> item_ok(#[trigger] per_line_items(s)[i]),
        !is_blank(s) ==> per_line_items(s).len() > 0,
    decreases s.len(),
{
    let e = line_end(s) as int;
    lemma_run_length(s, not_newline());
    let line = if e < s.len() {
        s.take(e)
    } else {
        s
    };
    if !is_blank(line) {
        lemma_trimmed(line);
        lemma_line_item_ok(trimmed(line));
    }
    if e < s.len() {
        let rest = s.skip(e + 1);
        lemma_per_line_items(rest);
        if !is_blank(s) && is_blank(line) {
            let j = choose|j: int| 0 <= j < s.len() && !is_space(#[trigger] s[j]);
            assert(s[e] == '\n');
            assert(is_space(s[e]));
            if j < e {
                assert(line[j] == s[j]);
            } else {
                assert(rest[j - e - 1] == s[j]);
            }
        }
        let first = line_items(line);
        let tail = per_line_items(rest);
        assert forall|i: int| 0 <= i < per_line_items(s).len() implies item_ok(
            #[trigger] per_line_items(s)[i],
        ) by {
            if i < first.len() {
                assert(per_line_items(s)[i] == first[i]);
            } else {
                assert(per_line_items(s)[i] == tail[i - first.len()]);
            }
        }
    }
}

/// Lines are read one by one and in their order: the reading of two texts
/// joined by a line feed is the reading of the first followed by the reading
/// of the second.
pub proof fn lemma_per_line_items_joined(a: Seq<char>, b: Seq<char>)
    ensures
        per_line_items(a + seq!['\n'] + b) == per_line_items(a) + per_line_items(b),
    decreases a.len(),
{
    let joined = a + seq!['\n'] + b;
    let e = line_end(a) as int;
    lemma_run_length(a, not_newline());
    assert forall|i: int| 0 <= i < e implies not_newline()(#[trigger] joined[i]) by {
        assert(joined[i] == a[i]);
    }
    if e < a.len() {
        assert(joined[e] == a[e]);
        lemma_run_length_is(joined, not_newline(), e);
        let rest = a.skip(e + 1);
        lemma_per_line_items_joined(rest, b);
        assert(joined.take(e) =~= a.take(e));
        assert(joined.skip(e + 1) =~= rest + seq!['\n'] + b);
        assert(per_line_items(joined) =~= per_line_items(a) + per_line_items(b));
    } else {
        assert(joined[e] == '\n');
        lemma_run_length_is(joined, not_newline(), e);
        assert(joined.take(e) =~= a);
        assert(joined.skip(e + 1) =~= b);
    }
}

/// Extraction yields usable items only, and at least one for a text that is
/// not blank, whatever the capability answered.
pub proof fn lemma_extracted(raw: Seq<char>, answer: Option<Seq<ParsedItemView>>, mode: Fallback)
    ensures
        forall|i: int|
            0 <= i < extracted(raw, answer, mode).len() ==> item_ok(
                #[trigger] extracted(raw, answer, mode)[i],
            ),
        !is_blank(raw) ==> extracted(raw, answer, mode).len() > 0,
{
    lemma_per_line_items(raw);
    lemma_trimmed(raw);
}

/// The order of a usable answer is kept: extraction hands it back as it came.
pub proof fn lemma_extracted_keeps_answer(
    raw: Seq<char>,
    items: Seq<ParsedItemView>,
    mode: Fallback,
)
    requires
        conforming(items),
    ensures
        extracted(raw, Some(items), mode) == items,
{
}

/// Without an answer, extraction is the local reading and nothing else.
pub proof fn lemma_extracted_without_answer(raw: Seq<char>, mode: Fallback)
    ensures
        extracted(raw, None, mode) == fallback_items(raw, mode),
{
}

/// The item that the slice `from..to` of `chars` stands for as a line.
pub fn line_item_at(chars: &Vec<char>, from: usize, to: usize) -> (item: ParsedItem)
    requires
        from <= to <= chars.len(),
    ensures
        item@ == line_item(chars@.subrange(from as int, to as int)),
{
    let ghost t = chars@.subrange(from as int, to as int);
    let mut word_end: usize = from;
    while word_end < to && !is_space_char(chars[word_end])
        invariant
            from <= word_end <= to <= chars.len(),
            t == chars@.subrange(from as int, to as int),
            forall|i: int| 0 <= i < word_end - from ==> !is_space(#[trigger] t[i]),
        decreases to - word_end,
    {
        word_end += 1;
    }
    let ghost token = t.take(word_end - from);
    let mut stem_end: usize = word_end;
    while stem_end > from && !is_digit_char(chars[stem_end - 1])
        invariant
            from <= stem_end <= word_end <= to <= chars.len(),
            t == chars@.subrange(from as int, to as int),
            token == t.take(word_end - from),
            forall|i: int| stem_end - from <= i < token.len() ==> !is_digit(#[trigger] token[i]),
        decreases stem_end,
    {
        stem_end -= 1;
    }
    proof {
        if word_end < to {
            assert(t[word_end - from] == chars@[word_end as int]);
        }
        lemma_run_length_is(t, not_space(), word_end - from);
        if stem_end > from {
            assert(token[stem_end - from - 1] == chars@[stem_end - 1]);
        }
        lemma_back_run_length_is(token, not_digit(), word_end - stem_end);
        assert(digit_stem(token) =~= chars@.subrange(from as int, stem_end as int));
        assert(t.skip(word_end - from) =~= chars@.subrange(word_end as int, to as int));
    }
    let count = read_decimal(chars, from, stem_end, 0x7fff_ffff);
    let (rest_from, rest_to) = trim_bounds(chars, word_end, to);
    match count {
        Some(q) if q >= 1 && rest_from < rest_to => ParsedItem {
            name: text_of(chars, rest_from, rest_to),
            quantity: q as i32,
        },
        _ => ParsedItem { name: text_of(chars, from, to), quantity: 1 },
    }
}

/// Reads `raw_text` line by line.
pub fn per_line(raw_text: &str) -> (out: Vec<ParsedItem>)
    ensures
        parsed_view(out@) == per_line_items(raw_text@),
{
    let chars = chars_of(raw_text);
    let n = chars.len();
    let mut out: Vec<ParsedItem> = Vec::new();
    let mut start: usize = 0;
    let mut done = false;
    assert(chars@.skip(0) =~= chars@);
    assert(parsed_view(out@) =~= Seq::<ParsedItemView>::empty());
    while !done
        invariant
            start <= n == chars.len(),
            !done ==> per_line_items(chars@) == parsed_view(out@) + per_line_items(
                chars@.skip(start as int),
            ),
            done ==> per_line_items(chars@) == parsed_view(out@),
        decreases
                n - start + if done {
                    0int
                } else {
                    1int
                },
    {
        let ghost rest = chars@.skip(start as int);
        let ghost before = parsed_view(out@);
        let mut end: usize = start;
        while end < n && chars[end] != '\n'
            invariant
                start <= end <= n == chars.len(),
                rest == chars@.skip(start as int),
                forall|i: int| 0 <= i < end - start ==> #[trigger] rest[i] != '\n',
            decreases n - end,
        {
            end += 1;
        }
        let ghost line = chars@.subrange(start as int, end as int);
        let (a, b) = trim_bounds(&chars, start, end);
        proof {
            if end < n {
                assert(rest[end - start] == chars@[end as int]);
            }
            lemma_run_length_is(rest, not_newline(), end - start);
            lemma_trimmed(line);
            if end < n {
                assert(rest.take(end - start) =~= line);
                assert(rest.skip(end - start + 1) =~= chars@.skip(end + 1));
            } else {
                assert(rest =~= line);
            }
        }
        if a < b {
            out.push(line_item_at(&chars, a, b));
        }
        assert(parsed_view(out@) =~= before + line_items(line));
        if end < n {
            start = end + 1;
        } else {
            done = true;
        }
    }
    out
}

/// What the capability is told before the raw text: what to do, by which
/// rules, and in which shape to answer.
pub const INSTRUCTION: &'static str = r#"
        You parse messy inventory text into structured data.

        Input text will be multiple items, sometimes separated by commas or newlines but not always.        Example:

          3 boxes of nails, hammer 10 screws
          couple of wrenchs

        Rules:
        - Split the text into separate items.
        - Each item must have:
          - quantity: integer >= 1
          - name: short name for the object (no extra commentary)
        - If the item includes a number or mentions a vague quantity, use that as quantity.
        - Otherwise, default quantity to 1.

        Return ONLY JSON, no explanations, exactly in this shape:

        {
          "items": [
            { "name": "box of nails", "quantity": 3 },
            { "name": "hammer", "quantity": 1 },
            { "name": "screws", "quantity": 10 },
            { "name": "wrench", "quantity": 2 }
          ]
        }

        Now parse this input:

        \"\"\""#;

/// What closes the request after the raw text.
pub const INSTRUCTION_END: &'static str = r#"\"\"\"
        "#;

/// The request that is sent to the capability for `raw`: the fixed
/// instruction, then the raw text as it is, then the closing.
pub open spec fn request_text(raw: Seq<char>) -> Seq<char> {
    INSTRUCTION@ + raw + INSTRUCTION_END@
}

/// Writes the request to the capability for `raw_text`.
pub fn structuring_request(raw_text: &str) -> (out: String)
    ensures
        out@ == request_text(raw_text@),
{
    let mut out = INSTRUCTION.to_owned();
    out.append(raw_text);
    out.append(INSTRUCTION_END);
    out
}

/// Reads `raw_text` as a single item.
pub fn whole_text(raw_text: &str) -> (out: Vec<ParsedItem>)
    ensures
        parsed_view(out@) == whole_text_items(raw_text@),
{
    let name = trim_text(raw_text);
    let mut out: Vec<ParsedItem> = Vec::new();
    proof {
        lemma_trimmed(raw_text@);
    }
    if !name.as_str().is_empty() {
        out.push(ParsedItem { name, quantity: 1 });
    }
    assert(parsed_view(out@) =~= whole_text_items(raw_text@));
    out
}

/// Whether an answer is usable.
pub fn is_conforming(items: &Vec<ParsedItem>) -> (ok: bool)
    ensures
        ok == conforming(parsed_view(items@)),
{
    if items.len() == 0 {
        return false;
    }
    let mut i: usize = 0;
    while i < items.len()
        invariant
            i <= items.len(),
            forall|j: int| 0 <= j < i ==> item_ok(#[trigger] parsed_view(items@)[j]),
        decreases items.len() - i,
    {
        if items[i].name.as_str().is_empty() || items[i].quantity < 1 {
            assert(!item_ok(parsed_view(items@)[i as int]));
            return false;
        }
        i += 1;
    }
    true
}

/// Extracts the items of `raw_text`. `answer` is what the structuring
/// capability made of the text, or `None` where it could not be reached, ran
/// out of time or answered in another shape. A usable answer is handed back
/// as it is; in every other case the text is read locally, as `mode` says.
pub fn extract(raw_text: &str, answer: Option<Vec<ParsedItem>>, mode: Fallback) -> (out: Vec<
    ParsedItem,
>)
    ensures
        parsed_view(out@) == extracted(raw_text@, structured_view(answer), mode),
        forall|i: int| 0 <= i < out.len() ==> (#[trigger] out[i]).wf(),
        !is_blank(raw_text@) ==> out.len() > 0,
{
    proof {
        lemma_extracted(raw_text@, structured_view(answer), mode);
    }
    let out = match answer {
        Some(items) => {
            if is_conforming(&items) {
                items
            } else {
                match mode {
                    Fallback::WholeText => whole_text(raw_text),
                    Fallback::PerLine => per_line(raw_text),
                }
            }
        },
        None => match mode {
            Fallback::WholeText => whole_text(raw_text),
            Fallback::PerLine => per_line(raw_text),
        },
    };
    let ghost items = extracted(raw_text@, structured_view(answer), mode);
    assert(parsed_view(out@) == items);
    assert forall|i: int| 0 <= i < out.len() implies (#[trigger] out[i]).wf() by {
        assert(items[i] == out[i]@);
    }
    out
}

} // verus!
