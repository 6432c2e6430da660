//! Terminal colours for messages, through the `colored` crate.
//!
//! Whether `colored` writes escape sequences depends on the environment
//! (`NO_COLOR`, `CLICOLOR`, `CLICOLOR_FORCE`, whether stdout is a terminal),
//! so what a painted piece of text becomes is stated for both outcomes.
use vstd::prelude::*;
use colored::Colorize;

verus! {

/// The escape character that starts a terminal control sequence.
pub open spec fn esc() -> char {
    '\x1b'
}

/// A "select graphic rendition" sequence: ESC `[` code `m`.
pub open spec fn sgr(code: Seq<char>) -> Seq<char> {
    seq![esc(), '['] + code + seq!['m']
}

/// The reset sequence ESC `[0m`.
pub open spec fn reset() -> Seq<char> {
    sgr(seq!['0'])
}

/// `s` between the style's sequence and the reset sequence.
pub open spec fn painted(code: Seq<char>, s: Seq<char>) -> Seq<char> {
    sgr(code) + s + reset()
}

/// What `colored` may show for `s` in the given style: `s` itself when
/// colouring is off, else a text between the style's sequence and the reset
/// sequence, which is `s` itself when `s` holds no escape character (else
/// `colored` re-styles the reset sequences inside it).
pub open spec fn shows(code: Seq<char>, s: Seq<char>, shown: Seq<char>) -> bool {
    ||| shown == s
    ||| exists|x: Seq<char>| shown == #[trigger] painted(code, x) && (!s.contains(esc()) ==> x == s)
}

/// Code of yellow foreground.
pub open spec fn yellow_code() -> Seq<char> {
    seq!['3', '3']
}

/// Code of red foreground.
pub open spec fn red_code() -> Seq<char> {
    seq!['3', '1']
}

/// Code of bold with red foreground.
pub open spec fn red_bold_code() -> Seq<char> {
    seq!['1', ';', '3', '1']
}

/// Code of black foreground on green background.
pub open spec fn black_on_green_code() -> Seq<char> {
    seq!['4', '2', ';', '3', '0']
}

/// `s` in yellow.
///
/// Trusted: calls `Colorize::yellow` and formats the `ColoredString`; its
/// `Display` writes `s` alone when colouring is off, and otherwise
/// ESC`[33m`, `s` (reset sequences inside it re-styled) and ESC`[0m`.
#[verifier::external_body]
pub(crate) fn yellow(s: &str) -> (r: String)
    ensures
        shows(yellow_code(), s@, r@),
{
    s.yellow().to_string()
}

/// `s` in red.
///
/// Trusted: calls `Colorize::red` and formats the `ColoredString`
/// (ESC`[31m` ... ESC`[0m` when colouring is on, `s` alone when off).
#[verifier::external_body]
pub(crate) fn red(s: &str) -> (r: String)
    ensures
        shows(red_code(), s@, r@),
{
    s.red().to_string()
}

/// `s` in bold red.
///
/// Trusted: calls `Colorize::red`, then `ColoredString::bold`, and formats
/// the result (ESC`[1;31m` ... ESC`[0m` when colouring is on: `colored`
/// writes the style before the colour).
#[verifier::external_body]
pub(crate) fn red_bold(s: &str) -> (r: String)
    ensures
        shows(red_bold_code(), s@, r@),
{
    s.red().bold().to_string()
}

/// `s` in black on green.
///
/// Trusted: calls `Colorize::black`, then `ColoredString::on_green`, and
/// formats the result (ESC`[42;30m` ... ESC`[0m` when colouring is on:
/// `colored` writes the background before the foreground).
#[verifier::external_body]
pub(crate) fn black_on_green(s: &str) -> (r: String)
    ensures
        shows(black_on_green_code(), s@, r@),
{
    s.black().on_green().to_string()
}

} // verus!
