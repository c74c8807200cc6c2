//! Terminal styling: bold, dimmed and coloured text, as escape codes around
//! the text.

use vstd::prelude::*;

verus! {

/// A foreground colour.
#[derive(Clone, Copy, Debug, PartialEq, Eq, Structural)]
pub enum Tint {
    Red,
    Green,
    Yellow,
}

/// The number that selects the foreground colour `tint`.
pub open spec fn tint_code(tint: Tint) -> Seq<char> {
    match tint {
        Tint::Red => "31"@,
        Tint::Green => "32"@,
        Tint::Yellow => "33"@,
    }
}

/// The code that ends every style.
pub open spec fn reset_code() -> Seq<char> {
    "\x1b[0m"@
}

/// `s` in bold.
pub open spec fn bold_text(s: Seq<char>) -> Seq<char> {
    "\x1b[1m"@ + s + reset_code()
}

/// `s` in the colour `tint`.
pub open spec fn tinted_text(tint: Tint, s: Seq<char>) -> Seq<char> {
    "\x1b["@ + tint_code(tint) + "m"@ + s + reset_code()
}

/// The code that begins dimmed text.
pub open spec fn dim_lead() -> Seq<char> {
    "\x1b[2m"@
}

/// `s` dimmed.
pub open spec fn dim_text(s: Seq<char>) -> Seq<char> {
    dim_lead() + s + reset_code()
}

/// `ansi_term::Style::paint` on the bold style, written out. The style has
/// the bold property alone, so the text comes out between the code `1` and
/// the reset code.
#[verifier::external_body]
pub(crate) fn paint_bold(s: &str) -> (r: String)
    ensures
        r@ == bold_text(s@),
{
    ansi_term::Style::new().bold().paint(s).to_string()
}

/// `ansi_term::Colour::paint`, written out. The colour alone makes the
/// style, so the text comes out between the colour's foreground code and the
/// reset code.
#[verifier::external_body]
pub(crate) fn paint_tint(tint: Tint, s: &str) -> (r: String)
    ensures
        r@ == tinted_text(tint, s@),
{
    let colour = match tint {
        Tint::Red => ansi_term::Colour::Red,
        Tint::Green => ansi_term::Colour::Green,
        Tint::Yellow => ansi_term::Colour::Yellow,
    };
    colour.paint(s).to_string()
}

/// `ansi_term::Style::prefix` on the dimmed style, written out: the code `2`.
#[verifier::external_body]
pub(crate) fn dim_prefix() -> (r: String)
    ensures
        r@ == dim_lead(),
{
    ansi_term::Style::new().dimmed().prefix().to_string()
}

/// `ansi_term::Style::suffix` on the dimmed style, written out: the reset
/// code, which ends every style that is not plain.
#[verifier::external_body]
pub(crate) fn dim_suffix() -> (r: String)
    ensures
        r@ == reset_code(),
{
    ansi_term::Style::new().dimmed().suffix().to_string()
}

/// `s` in bold, for a terminal.
pub fn bold(s: &str) -> (r: String)
    ensures
        r@ == bold_text(s@),
{
    paint_bold(s)
}

/// `s` in the colour `tint`, for a terminal.
pub fn tinted(tint: Tint, s: &str) -> (r: String)
    ensures
        r@ == tinted_text(tint, s@),
{
    paint_tint(tint, s)
}

/// `s` dimmed, for a terminal.
pub fn dimmed(s: &str) -> (r: String)
    ensures
        r@ == dim_text(s@),
{
    let mut r = dim_prefix();
    r.append(s);
    let tail = dim_suffix();
    r.append(tail.as_str());
    r
}

} // verus!
