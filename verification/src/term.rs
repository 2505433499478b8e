//! Terminal environment queries.  Whether output is a terminal and how wide
//! it is depend on the environment, so nothing specific can be promised of
//! them; the defaulting logic is verified separately.

use vstd::prelude::*;

verus! {

/// Relies on `atty::is(atty::Stream::Stdout)`: whether standard output is
/// an interactive terminal.  The answer depends on the environment.
#[verifier::external_body]
pub fn use_color() -> bool {
    atty::is(atty::Stream::Stdout)
}

/// Relies on `term_size::dimensions`: the terminal's (width, height) when
/// it can be determined.  The answer depends on the environment.
#[verifier::external_body]
fn term_dimensions() -> Option<(usize, usize)> {
    term_size::dimensions()
}

/// The width a dimension query yields, defaulting to 80 columns.
pub fn width_or_default(d: Option<(usize, usize)>) -> (r: usize)
    ensures
        r == (match d {
            Some(wh) => wh.0,
            None => 80usize,
        }),
{
    match d {
        Some((w, _)) => w,
        None => 80,
    }
}

/// Current terminal width, defaulting to 80 columns when unknown.
pub fn term_width() -> (r: usize) {
    width_or_default(term_dimensions())
}

} // verus!
