//! HTML text escaping, as the page templates apply it to interpolated text.

use std::fmt::Write;
use vstd::prelude::*;

verus! {

/// How one character is written inside HTML text or a quoted attribute value.
pub open spec fn escape_char(c: char) -> Seq<char> {
    if c == '&' {
        "&amp;"@
    } else if c == '<' {
        "&lt;"@
    } else if c == '>' {
        "&gt;"@
    } else if c == '"' {
        "&quot;"@
    } else {
        seq![c]
    }
}

/// `s` with `&`, `<`, `>` and `"` replaced by their character references.
pub open spec fn html_escaped(s: Seq<char>) -> Seq<char>
    decreases s.len(),
{
    if s.len() == 0 {
        Seq::empty()
    } else {
        html_escaped(s.drop_last()) + escape_char(s.last())
    }
}

/// `c` is one of the characters that escaping rewrites.
pub open spec fn is_html_special(c: char) -> bool {
    c == '&' || c == '<' || c == '>' || c == '"'
}

/// Escapes text for HTML.
///
/// Trusted wrapper around `maud::Escaper`: maud documents that it replaces `&`,
/// `<`, `>` and `"` by `&amp;`, `&lt;`, `&gt;` and `&quot;` and passes every other
/// character through unchanged, which is what `html_escaped` states.
#[verifier::external_body]
pub fn escape_html(s: &str) -> (r: String)
    ensures
        r@ == html_escaped(s@),
{
    let mut out = String::new();
    let _ = write!(maud::Escaper::new(&mut out), "{}", s);
    out
}

/// Text without any of `&`, `<`, `>`, `"` is left unchanged by escaping.
pub proof fn lemma_escape_plain(s: Seq<char>)
    requires
        forall|i: int| 0 <= i < s.len() ==> !is_html_special(#[trigger] s[i]),
    ensures
        html_escaped(s) == s,
    decreases s.len(),
{
    if s.len() > 0 {
        lemma_escape_plain(s.drop_last());
        assert(!is_html_special(s[s.len() - 1]));
        assert(s.drop_last().push(s.last()) =~= s);
    }
}

} // verus!
