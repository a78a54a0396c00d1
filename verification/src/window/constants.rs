//! Box-drawing characters and default sizes.

use vstd::prelude::*;

verus! {

pub const TL_CORNER: char = '┌';

pub const TR_CORNER: char = '┐';

pub const BL_CORNER: char = '└';

pub const BR_CORNER: char = '┘';

pub const VERT_EDGE: char = '│';

pub const HORI_EDGE: char = '─';

pub const DOBLE_HORI_EDGE: char = '═';

pub const DOBLE_VERT_EDGE: char = '║';

pub const LVDIV_EDGE: char = '├';

pub const RVDIV_EDGE: char = '┤';

/// The width of a window whose width was not given.
pub const MAX_WINDOW_WIDTH: u16 = 65;

/// The height of a window whose height was not given.
pub const MAX_WINDOW_HEIGHT: u16 = 10;

/// The blank columns between the left edge and the text of a row.
pub const H_PADDING: u16 = 2;

} // verus!
