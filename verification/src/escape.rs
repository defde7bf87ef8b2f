//! Escaping of text that is shown inside markup.

use vstd::prelude::*;
use vstd::string::StringExecFns;

verus! {

/// What stands for `c` in escaped text: an entity for `&`, `<` and `>`, and
/// the character itself for every other.
pub open spec fn escaped_char(c: char) -> Seq<char> {
    if c == '&' {
        "&amp;"@
    } else if c == '<' {
        "&lt;"@
    } else if c == '>' {
        "&gt;"@
    } else {
        seq![c]
    }
}

/// `s` with every character replaced by what stands for it.
pub open spec fn escaped(s: Seq<char>) -> Seq<char>
    decreases s.len(),
{
    if s.len() == 0 {
        Seq::empty()
    } else {
        escaped(s.drop_last()) + escaped_char(s.last())
    }
}

/// Escaped text holds neither `<` nor `>`, and is no shorter than the text.
pub proof fn lemma_escaped_is_plain(s: Seq<char>)
    ensures
        forall|i: int| 0 <= i < escaped(s).len() ==> escaped(s)[i] != '<' && escaped(s)[i] != '>',
        escaped(s).len() >= s.len(),
    decreases s.len(),
{
    reveal_strlit("&amp;");
    reveal_strlit("&lt;");
    reveal_strlit("&gt;");
    if s.len() > 0 {
        lemma_escaped_is_plain(s.drop_last());
    }
}

/// Text that holds none of `&`, `<` and `>` is left as it is.
pub proof fn lemma_escaped_plain_text(s: Seq<char>)
    requires
        forall|i: int| 0 <= i < s.len() ==> s[i] != '&' && s[i] != '<' && s[i] != '>',
    ensures
        escaped(s) == s,
    decreases s.len(),
{
    if s.len() > 0 {
        lemma_escaped_plain_text(s.drop_last());
        assert(s.drop_last().push(s.last()) =~= s);
    }
}

/// Escapes `s` for markup: `&`, `<` and `>` become `&amp;`, `&lt;` and
/// `&gt;`.
pub fn html_escape(s: &str) -> (out: String)
    ensures
        out@ == escaped(s@),
{
    let mut out = String::new();
    for c in it: s.chars()
        invariant
            it.seq() == s@,
            out@ == escaped(s@.take(it.index())),
    {
        let ghost seen = s@.take(it.index() + 1);
        assert(seen.drop_last() =~= s@.take(it.index()));
        assert(seen.last() == c);
        if c == '&' {
            out.append("&amp;");
        } else if c == '<' {
            out.append("&lt;");
        } else if c == '>' {
            out.append("&gt;");
        } else {
            out.push(c);
        }
        assert(out@ =~= escaped(seen));
    }
    assert(s@.take(s@.len() as int) =~= s@);
    out
}

} // verus!
