//! The errors of each stage, and the text that reports them.
pub mod interpreter_error;
pub mod lang_error;
pub mod lex_error;
pub mod parse_error;

use vstd::prelude::*;
use crate::text::{decimal, empty_string, push_decimal, push_str};
use crate::paint::{shows, black_on_green_code, black_on_green, esc, sgr, painted};

verus! {

/// ` at line: L, col: C ` for a position.
pub open spec fn location_text(line: usize, col: usize) -> Seq<char> {
    " at line: "@ + decimal(line as nat) + ", col: "@ + decimal(col as nat) + " "@
}

/// The position note of an error report, black on green.
pub fn location_note(line: usize, col: usize) -> (r: String)
    ensures
        shows(black_on_green_code(), location_text(line, col), r@),
{
    let mut s = empty_string();
    push_str(&mut s, " at line: ");
    push_decimal(&mut s, line);
    push_str(&mut s, ", col: ");
    push_decimal(&mut s, col);
    push_str(&mut s, " ");
    black_on_green(s.as_str())
}

/// `d` is `pre`, then what the style shows for `s`, then `suf`.
pub open spec fn framed(d: Seq<char>, pre: Seq<char>, code: Seq<char>, s: Seq<char>, suf: Seq<char>) -> bool {
    &&& d.len() >= pre.len() + suf.len()
    &&& d.take(pre.len() as int) == pre
    &&& d.skip(d.len() - suf.len()) == suf
    &&& shows(code, s, d.subrange(pre.len() as int, d.len() - suf.len()))
}

/// Proves `framed` for a text built from its three parts.
pub proof fn lemma_framed(pre: Seq<char>, code: Seq<char>, s: Seq<char>, shown: Seq<char>, suf: Seq<char>)
    requires
        shows(code, s, shown),
    ensures
        framed(pre + shown + suf, pre, code, s, suf),
{
    let d = pre + shown + suf;
    assert(d.take(pre.len() as int) =~= pre);
    assert(d.skip(d.len() - suf.len()) =~= suf);
    assert(d.subrange(pre.len() as int, d.len() - suf.len()) =~= shown);
}

/// A framed text without an escape character is not coloured: it is
/// `pre`, then `s` itself, then `suf`.
pub proof fn lemma_framed_plain(d: Seq<char>, pre: Seq<char>, code: Seq<char>, s: Seq<char>, suf: Seq<char>)
    requires
        framed(d, pre, code, s, suf),
        !d.contains(esc()),
    ensures
        d == pre + s + suf,
{
    let mid = d.subrange(pre.len() as int, d.len() - suf.len());
    if mid != s {
        let x = choose|x: Seq<char>| mid == #[trigger] painted(code, x) && (!s.contains(esc()) ==> x == s);
        assert(painted(code, x).len() >= 3);
        assert(mid.len() > 0);
        assert(mid[0] == painted(code, x)[0]);
        assert(sgr(code)[0] == esc());
        assert((sgr(code) + x)[0] == esc());
        assert(painted(code, x)[0] == esc());
        assert(d[pre.len() as int] == mid[0]);
        assert(d.contains(esc()));
    }
    assert(d =~= d.take(pre.len() as int) + mid + d.skip(d.len() - suf.len()));
}

/// `pre`, `s` and `suf` put together are framed by them, whatever the style.
pub proof fn lemma_framed_plain_text(pre: Seq<char>, code: Seq<char>, s: Seq<char>, suf: Seq<char>)
    ensures
        framed(pre + s + suf, pre, code, s, suf),
{
    lemma_framed(pre, code, s, s, suf);
}

/// How a report is laid out: prefix, `": "`, detail, then, when there is a
/// position, a newline and the position note; always a final newline.
pub open spec fn report_layout(prefix: Seq<char>, detail: Seq<char>, loc: Option<Seq<char>>) -> Seq<char> {
    match loc {
        Some(l) => prefix + ": "@ + detail + "\n"@ + l + "\n"@,
        None => prefix + ": "@ + detail + "\n"@,
    }
}

/// Builds `report_layout(prefix, detail, loc)`.
pub fn layout(prefix: String, detail: String, loc: Option<String>) -> (r: String)
    ensures
        r@ == report_layout(prefix@, detail@, match loc { Some(l) => Some(l@), None => None }),
{
    let mut s = prefix;
    push_str(&mut s, ": ");
    push_str(&mut s, detail.as_str());
    push_str(&mut s, "\n");
    match loc {
        Some(l) => {
            push_str(&mut s, l.as_str());
            push_str(&mut s, "\n");
        },
        None => {},
    }
    s
}

/// ` at line L, col C`, as the error messages end.
pub open spec fn at_line_col(line: usize, col: usize) -> Seq<char> {
    " at line "@ + decimal(line as nat) + ", col "@ + decimal(col as nat)
}

/// ` at L:C`, as the error messages end.
pub open spec fn at_pos(line: usize, col: usize) -> Seq<char> {
    " at "@ + decimal(line as nat) + ":"@ + decimal(col as nat)
}

/// Appends ` at line L, col C`.
pub(crate) fn push_at_line_col(s: &mut String, line: usize, col: usize)
    ensures
        final(s)@ == old(s)@ + at_line_col(line, col),
{
    let ghost before = s@;
    push_str(s, " at line ");
    push_decimal(s, line);
    push_str(s, ", col ");
    push_decimal(s, col);
    assert(s@ =~= before + at_line_col(line, col));
}

/// Appends ` at L:C`.
pub(crate) fn push_at_pos(s: &mut String, line: usize, col: usize)
    ensures
        final(s)@ == old(s)@ + at_pos(line, col),
{
    let ghost before = s@;
    push_str(s, " at ");
    push_decimal(s, line);
    push_str(s, ":");
    push_decimal(s, col);
    assert(s@ =~= before + at_pos(line, col));
}

/// `pre`, then `shown`, then `suf`, where `shown` is what a style shows for `s`.
pub(crate) fn framed_text(pre: &str, shown: String, suf: &str, Ghost(code): Ghost<Seq<char>>, Ghost(s): Ghost<Seq<char>>) -> (r: String)
    requires
        shows(code, s, shown@),
    ensures
        framed(r@, pre@, code, s, suf@),
{
    let mut r = empty_string();
    push_str(&mut r, pre);
    push_str(&mut r, shown.as_str());
    push_str(&mut r, suf);
    proof {
        lemma_framed(pre@, code, s, shown@, suf@);
    }
    r
}

} // verus!
