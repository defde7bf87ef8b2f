//! Characters, whitespace and trimming over the `Seq<char>` view of strings.
//!
//! Every routine here works on a `Vec<char>` taken once from the input, so
//! that positions are character positions and slicing is never done on bytes.

use vstd::prelude::*;

verus! {

/// Taken on trust about std's `String::push`: after the call the string holds
/// the characters it held before, followed by `c`.
pub assume_specification[ String::push ](s: &mut String, c: char)
    ensures
        final(s)@ == old(s)@.push(c),
;

/// Whether `c` is white space: the code points that Unicode gives the
/// `White_Space` property.
pub open spec fn is_space(c: char) -> bool {
    let n = c as u32;
    ||| 0x09 <= n <= 0x0D
    ||| n == 0x20
    ||| n == 0x85
    ||| n == 0xA0
    ||| n == 0x1680
    ||| 0x2000 <= n <= 0x200A
    ||| n == 0x2028
    ||| n == 0x2029
    ||| n == 0x202F
    ||| n == 0x205F
    ||| n == 0x3000
}

/// Whether every character of `s` is white space (true of the empty text).
pub open spec fn is_blank(s: Seq<char>) -> bool {
    forall|i: int| 0 <= i < s.len() ==> is_space(#[trigger] s[i])
}

/// The length of the longest prefix of `s` whose characters all satisfy `p`.
pub open spec fn run_length(s: Seq<char>, p: spec_fn(char) -> bool) -> nat
    decreases s.len(),
{
    if s.len() > 0 && p(s[0]) {
        1 + run_length(s.drop_first(), p)
    } else {
        0
    }
}

/// The length of the longest suffix of `s` whose characters all satisfy `p`.
pub open spec fn back_run_length(s: Seq<char>, p: spec_fn(char) -> bool) -> nat
    decreases s.len(),
{
    if s.len() > 0 && p(s.last()) {
        1 + back_run_length(s.drop_last(), p)
    } else {
        0
    }
}

/// The run at the front lies within `s`, every character of it satisfies
/// `p`, and the character that follows it, if any, does not.
pub proof fn lemma_run_length(s: Seq<char>, p: spec_fn(char) -> bool)
    ensures
        run_length(s, p) <= s.len(),
        forall|i: int| 0 <= i < run_length(s, p) ==> p(#[trigger] s[i]),
        run_length(s, p) < s.len() ==> !p(s[run_length(s, p) as int]),
    decreases s.len(),
{
    if s.len() > 0 && p(s[0]) {
        let rest = s.drop_first();
        lemma_run_length(rest, p);
        assert forall|i: int| 0 <= i < run_length(s, p) implies p(#[trigger] s[i]) by {
            if i > 0 {
                assert(s[i] == rest[i - 1]);
            }
        }
        if run_length(s, p) < s.len() {
            assert(s[run_length(s, p) as int] == rest[run_length(rest, p) as int]);
        }
    }
}

/// A position that ends a run from the front, and is followed by a character
/// that fails `p` or by nothing, is the length of the run at the front.
pub proof fn lemma_run_length_is(s: Seq<char>, p: spec_fn(char) -> bool, k: int)
    requires
        0 <= k <= s.len(),
        forall|i: int| 0 <= i < k ==> p(#[trigger] s[i]),
        k < s.len() ==> !p(s[k]),
    ensures
        run_length(s, p) == k,
    decreases k,
{
    if k > 0 {
        let rest = s.drop_first();
        assert(p(s[0]));
        assert forall|i: int| 0 <= i < k - 1 implies p(#[trigger] rest[i]) by {
            assert(rest[i] == s[i + 1]);
        }
        lemma_run_length_is(rest, p, k - 1);
    }
}

/// The run at the back lies within `s`, every character of it satisfies `p`,
/// and the character before it, if any, does not.
pub proof fn lemma_back_run_length(s: Seq<char>, p: spec_fn(char) -> bool)
    ensures
        back_run_length(s, p) <= s.len(),
        forall|i: int| s.len() - back_run_length(s, p) <= i < s.len() ==> p(#[trigger] s[i]),
        back_run_length(s, p) < s.len() ==> !p(s[s.len() - back_run_length(s, p) - 1]),
    decreases s.len(),
{
    if s.len() > 0 && p(s.last()) {
        let rest = s.drop_last();
        lemma_back_run_length(rest, p);
        assert forall|i: int| s.len() - back_run_length(s, p) <= i < s.len() implies p(
            #[trigger] s[i],
        ) by {
            if i < s.len() - 1 {
                assert(s[i] == rest[i]);
            }
        }
        if back_run_length(s, p) < s.len() {
            assert(s[s.len() - back_run_length(s, p) - 1] == rest[rest.len() - back_run_length(
                rest,
                p,
            ) - 1]);
        }
    }
}

/// A count that covers a run up to the end, and is preceded by a character
/// that fails `p` or by nothing, is the length of the run at the back.
pub proof fn lemma_back_run_length_is(s: Seq<char>, p: spec_fn(char) -> bool, k: int)
    requires
        0 <= k <= s.len(),
        forall|i: int| s.len() - k <= i < s.len() ==> p(#[trigger] s[i]),
        k < s.len() ==> !p(s[s.len() - k - 1]),
    ensures
        back_run_length(s, p) == k,
    decreases k,
{
    if k > 0 {
        let rest = s.drop_last();
        assert(p(s[s.len() - 1]));
        assert forall|i: int| rest.len() - (k - 1) <= i < rest.len() implies p(
            #[trigger] rest[i],
        ) by {
            assert(rest[i] == s[i]);
        }
        if k - 1 < rest.len() {
            assert(rest[rest.len() - (k - 1) - 1] == s[s.len() - k - 1]);
        }
        lemma_back_run_length_is(rest, p, k - 1);
    }
}

/// The test for white space, as a value.
pub open spec fn space() -> spec_fn(char) -> bool {
    |c: char| is_space(c)
}

/// The test for anything but white space, as a value.
pub open spec fn not_space() -> spec_fn(char) -> bool {
    |c: char| !is_space(c)
}

/// How many white-space characters `s` begins with.
pub open spec fn leading_spaces(s: Seq<char>) -> nat {
    run_length(s, space())
}

/// How many white-space characters `s` ends with.
pub open spec fn trailing_spaces(s: Seq<char>) -> nat {
    back_run_length(s, space())
}

/// `s` without the white space it begins with.
pub open spec fn trim_start(s: Seq<char>) -> Seq<char> {
    s.skip(leading_spaces(s) as int)
}

/// `s` without the white space it ends with.
pub open spec fn trim_end(s: Seq<char>) -> Seq<char> {
    s.take(s.len() - trailing_spaces(s))
}

/// `s` without the white space at either end.
pub open spec fn trimmed(s: Seq<char>) -> Seq<char> {
    trim_end(trim_start(s))
}

/// What trimming leaves is a slice of the text that neither begins nor ends
/// with white space, and it is empty exactly when the text is blank.
pub proof fn lemma_trimmed(s: Seq<char>)
    ensures
        trimmed(s).len() <= s.len(),
        trimmed(s).len() == 0 <==> is_blank(s),
        trimmed(s).len() > 0 ==> !is_space(trimmed(s)[0]) && !is_space(trimmed(s).last()),
        leading_spaces(s) + trimmed(s).len() <= s.len(),
        trimmed(s) == s.subrange(
            leading_spaces(s) as int,
            (leading_spaces(s) + trimmed(s).len()) as int,
        ),
{
    let a = leading_spaces(s) as int;
    let t = trim_start(s);
    lemma_run_length(s, space());
    lemma_back_run_length(t, space());
    let k = trailing_spaces(t) as int;
    assert(trimmed(s) =~= s.subrange(a, a + (t.len() - k)));
    if trimmed(s).len() == 0 {
        assert forall|i: int| 0 <= i < s.len() implies is_space(#[trigger] s[i]) by {
            if i >= a {
                assert(s[i] == t[i - a]);
            }
        }
    } else {
        assert(trimmed(s)[0] == s[a]);
        assert(trimmed(s).last() == t[t.len() - k - 1]);
        assert(!is_blank(s));
    }
}

/// Trimming twice is trimming once.
pub proof fn lemma_trimmed_idempotent(s: Seq<char>)
    ensures
        trimmed(trimmed(s)) == trimmed(s),
{
    let t = trimmed(s);
    lemma_trimmed(s);
    lemma_run_length_is(t, space(), 0);
    assert(trim_start(t) =~= t);
    lemma_back_run_length_is(t, space(), 0);
    assert(trim_end(t) =~= t);
}

/// Whether `c` is white space.
pub fn is_space_char(c: char) -> (b: bool)
    ensures
        b == is_space(c),
{
    let n: u32 = c as u32;
    (0x09 <= n && n <= 0x0D) || n == 0x20 || n == 0x85 || n == 0xA0 || n == 0x1680 || (0x2000 <= n
        && n <= 0x200A) || n == 0x2028 || n == 0x2029 || n == 0x202F || n == 0x205F || n == 0x3000
}

/// The characters of `s`, in order.
pub fn chars_of(s: &str) -> (out: Vec<char>)
    ensures
        out@ == s@,
{
    let mut out: Vec<char> = Vec::new();
    for c in it: s.chars()
        invariant
            it.seq() == s@,
            out@ == s@.take(it.index()),
    {
        out.push(c);
    }
    out
}

/// The text made of the characters of `chars` from `from` up to `to`.
pub fn text_of(chars: &Vec<char>, from: usize, to: usize) -> (out: String)
    requires
        from <= to <= chars.len(),
    ensures
        out@ == chars@.subrange(from as int, to as int),
{
    let mut out = String::new();
    let mut i: usize = from;
    while i < to
        invariant
            from <= i <= to <= chars.len(),
            out@ == chars@.subrange(from as int, i as int),
        decreases to - i,
    {
        out.push(chars[i]);
        i += 1;
    }
    out
}

/// Where the trimmed form of the slice `from..to` of `chars` begins and ends.
pub fn trim_bounds(chars: &Vec<char>, from: usize, to: usize) -> (bounds: (usize, usize))
    requires
        from <= to <= chars.len(),
    ensures
        from <= bounds.0 <= bounds.1 <= to,
        chars@.subrange(bounds.0 as int, bounds.1 as int) == trimmed(
            chars@.subrange(from as int, to as int),
        ),
        bounds.0 - from == leading_spaces(chars@.subrange(from as int, to as int)),
{
    let ghost whole = chars@.subrange(from as int, to as int);
    let mut a: usize = from;
    while a < to && is_space_char(chars[a])
        invariant
            from <= a <= to <= chars.len(),
            whole == chars@.subrange(from as int, to as int),
            forall|i: int| 0 <= i < a - from ==> is_space(#[trigger] whole[i]),
        decreases to - a,
    {
        a += 1;
    }
    let mut b: usize = to;
    while b > a && is_space_char(chars[b - 1])
        invariant
            a <= b <= to <= chars.len(),
            from <= a,
            whole == chars@.subrange(from as int, to as int),
            forall|i: int| b - from <= i < whole.len() ==> is_space(#[trigger] whole[i]),
        decreases b - a,
    {
        b -= 1;
    }
    proof {
        if a < to {
            assert(whole[a - from] == chars@[a as int]);
        }
        lemma_run_length_is(whole, space(), a - from);
        let rest = trim_start(whole);
        assert forall|i: int| rest.len() - (to - b) <= i < rest.len() implies is_space(
            #[trigger] rest[i],
        ) by {
            assert(rest[i] == whole[i + (a - from)]);
        }
        if to - b < rest.len() {
            assert(rest[rest.len() - (to - b) - 1] == chars@[b - 1]);
        }
        lemma_back_run_length_is(rest, space(), to - b);
        assert(chars@.subrange(a as int, b as int) =~= trimmed(whole));
    }
    (a, b)
}

/// `s` without the white space at either end.
pub fn trim_text(s: &str) -> (out: String)
    ensures
        out@ == trimmed(s@),
{
    let chars = chars_of(s);
    let (a, b) = trim_bounds(&chars, 0, chars.len());
    assert(chars@.subrange(0, chars.len() as int) =~= s@);
    text_of(&chars, a, b)
}

/// The canonical form of an optional free-text field: absent when nothing
/// was given or only white space, and otherwise the text without the white
/// space around it. Never an empty text.
pub open spec fn normalized(field: Option<Seq<char>>) -> Option<Seq<char>> {
    match field {
        Some(s) if !is_blank(s) => Some(trimmed(s)),
        _ => None,
    }
}

/// The view of an optional text.
pub open spec fn text_view(field: Option<String>) -> Option<Seq<char>> {
    match field {
        Some(s) => Some(s@),
        None => None,
    }
}

/// Brings an optional free-text field into its canonical form.
pub fn normalize_optional(opt: Option<String>) -> (out: Option<String>)
    ensures
        text_view(out) == normalized(text_view(opt)),
        out matches Some(s) ==> s@.len() > 0,
{
    match opt {
        None => None,
        Some(s) => {
            let t = trim_text(s.as_str());
            proof {
                lemma_trimmed(s@);
            }
            if t.as_str().is_empty() {
                None
            } else {
                Some(t)
            }
        },
    }
}

/// A canonical field is left as it is by a second normalisation.
pub proof fn lemma_normalized_idempotent(field: Option<Seq<char>>)
    ensures
        normalized(normalized(field)) == normalized(field),
        normalized(field) matches Some(s) ==> s.len() > 0 && !is_blank(s),
{
    if let Some(s) = field {
        lemma_trimmed(s);
        lemma_trimmed_idempotent(s);
        lemma_trimmed(trimmed(s));
    }
}

} // verus!
