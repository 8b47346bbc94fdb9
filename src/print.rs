//! Layout of the text report: fixed-width lines with centered content.
use vstd::prelude::*;

verus! {

/// The number of terminal columns that `s` takes once styling escape codes
/// are left out, as `console::measure_text_width` counts them.
pub uninterp spec fn text_width_of(s: Seq<char>) -> nat;

/// `n` spaces.
pub open spec fn spaces(n: int) -> Seq<char> {
    Seq::new(n as nat, |i: int| ' ')
}

/// `s`, which takes `w` columns, centered in `width` columns: the missing
/// columns are split into spaces on the left and right, the right side taking
/// the odd one. Text as wide as `width` or wider is left as it is.
pub open spec fn centered(s: Seq<char>, w: nat, width: nat) -> Seq<char> {
    if w >= width {
        s
    } else {
        let diff = width - w;
        spaces(diff / 2) + s + spaces(diff - diff / 2)
    }
}

/// Relies on `console::pad_str` with centered alignment and no truncation:
/// it measures `s` with `console::measure_text_width`, returns `s` when that
/// is at least `width`, and otherwise pads it with spaces on both sides as
/// `centered` states.
#[verifier::external_body]
fn pad_center(s: &str, width: usize) -> (r: String)
    ensures
        r@ == centered(s@, text_width_of(s@), width as nat),
{
    console::pad_str(s, width, console::Alignment::Center, None).to_string()
}

/// Writes report lines of a fixed width.
pub struct Printer {
    pub width: u16,
}

impl Printer {
    /// `message` centered in the printer's width.
    pub fn center(&self, message: &str) -> (r: String)
        ensures
            r@ == centered(message@, text_width_of(message@), self.width as nat),
    {
        pad_center(message, self.width as usize)
    }
}

} // verus!
