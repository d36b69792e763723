//! The scroll bar beside the task report.
use vstd::prelude::*;

use crate::color::{plain_style, Style};

verus! {

/// The symbol of the current position.
pub const FULL: &'static str = "█";

/// The symbol of the track.
pub const DOUBLE_VERTICAL: &'static str = "║";

/// A scroll bar: where the view is (`pos`) out of how many rows (`len`), and
/// how the two parts are drawn.
pub struct Scrollbar {
    pub pos: u16,
    pub len: u16,
    pub pos_style: Style,
    pub pos_symbol: String,
    pub area_style: Style,
    pub area_symbol: String,
}

impl Scrollbar {
    /// A scroll bar at `pos` of `len`, each kept to its low 16 bits.
    pub fn new(pos: usize, len: usize) -> (r: Self)
        ensures
            r.pos == pos as u16,
            r.len == len as u16,
            r.pos_style == plain_style(),
            r.area_style == plain_style(),
            r.pos_symbol@ == FULL@,
            r.area_symbol@ == DOUBLE_VERTICAL@,
    {
        Scrollbar {
            pos: pos as u16,
            len: len as u16,
            pos_style: Style::new(),
            pos_symbol: String::from_str(FULL),
            area_style: Style::new(),
            area_symbol: String::from_str(DOUBLE_VERTICAL),
        }
    }
}

} // verus!
