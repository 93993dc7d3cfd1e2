//! Terminal colours from `owo_colors`, as the text that they print.
use owo_colors::OwoColorize;
use vstd::prelude::*;

verus! {

/// `s` between the ANSI escape that selects foreground colour `code` and the
/// one that restores the default foreground (`ESC[39m`), which is how
/// `owo_colors` displays a foreground-coloured value.
pub open spec fn fg_text(code: Seq<char>, s: Seq<char>) -> Seq<char> {
    seq!['\x1b', '['] + code + seq!['m'] + s + seq!['\x1b', '[', '3', '9', 'm']
}

/// `OwoColorize::bright_yellow` displayed: `owo_colors` writes `ESC[93m`,
/// the text, then `ESC[39m`.
#[verifier::external_body]
pub(crate) fn bright_yellow_text(s: &str) -> (r: String)
    ensures
        r@ == fg_text(seq!['9', '3'], s@),
{
    s.bright_yellow().to_string()
}

/// `OwoColorize::bright_green` displayed: `owo_colors` writes `ESC[92m`,
/// the text, then `ESC[39m`.
#[verifier::external_body]
pub(crate) fn bright_green_text(s: &str) -> (r: String)
    ensures
        r@ == fg_text(seq!['9', '2'], s@),
{
    s.bright_green().to_string()
}

/// `OwoColorize::bright_cyan` displayed: `owo_colors` writes `ESC[96m`,
/// the text, then `ESC[39m`.
#[verifier::external_body]
pub(crate) fn bright_cyan_text(s: &str) -> (r: String)
    ensures
        r@ == fg_text(seq!['9', '6'], s@),
{
    s.bright_cyan().to_string()
}

} // verus!
