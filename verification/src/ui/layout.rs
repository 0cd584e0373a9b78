//! Where the parts of a frame stand, and how urgent a countdown looks.

use vstd::prelude::*;

verus! {

/// Width of the border of the main box.
pub const BORDER_WIDTH: u16 = 2;

/// Width of a single code with the space on each side.
pub const CODE_WIDTH: u16 = 9;

/// Columns kept free before the progress bar.
pub const PADDING_BEFORE: u16 = 4;

/// Columns kept free after the progress bar.
pub const PADDING_AFTER: u16 = 1;

/// Height of the window for a new entry.
pub const MODAL_HEIGHT: u16 = 10;

/// A rectangle of terminal cells.
#[derive(Debug, Clone, Copy, PartialEq, Eq, Structural)]
pub struct Area {
    pub x: u16,
    pub y: u16,
    pub width: u16,
    pub height: u16,
}

/// How a countdown is coloured.
#[derive(Debug, Clone, Copy, PartialEq, Eq, Structural)]
pub enum Tone {
    /// Eleven seconds or more are left.
    Calm,
    /// Five to ten seconds are left.
    Soon,
    /// Less than five seconds are left.
    Urgent,
}

/// The tone of the countdown's label.
pub open spec fn tone_of(remaining: u64) -> Tone {
    if remaining >= 11 {
        Tone::Calm
    } else if remaining >= 5 {
        Tone::Soon
    } else {
        Tone::Urgent
    }
}

/// The cell row of the account with the given index, in an area.
pub open spec fn line_of(area: Area, index: int) -> int {
    index + 1 + area.y
}

/// The columns that the code of the next time step takes away from the
/// progress bar.
pub open spec fn peek_columns(peek: bool) -> int {
    if peek {
        CODE_WIDTH + 2
    } else {
        0
    }
}

/// The columns that are not the progress bar's, for labels of the given width.
pub open spec fn taken_columns(text_len: u16, peek: bool) -> int {
    text_len + PADDING_BEFORE + PADDING_AFTER + 2 * BORDER_WIDTH + peek_columns(peek)
}

/// The least height of the list: a line for each account and the border.
pub fn list_height(accounts: usize) -> (height: u16)
    requires
        accounts + 2 <= u16::MAX,
    ensures
        height == accounts + 2,
{
    accounts as u16 + 2
}

/// The height of the window for a new entry: none while it is closed.
pub fn modal_height(modal_open: bool) -> (height: u16)
    ensures
        height == if modal_open {
            MODAL_HEIGHT
        } else {
            0
        },
{
    if modal_open {
        MODAL_HEIGHT
    } else {
        0
    }
}

/// The tone of the countdown's label.
pub fn countdown_tone(remaining: u64) -> (tone: Tone)
    ensures
        tone == tone_of(remaining),
{
    if remaining >= 11 {
        Tone::Calm
    } else if remaining >= 5 {
        Tone::Soon
    } else {
        Tone::Urgent
    }
}

/// Whether the filled part of the progress bar is shown as running out: five
/// seconds or less are left.
pub fn bar_runs_out(remaining: u64) -> (out: bool)
    ensures
        out == (remaining <= 5),
{
    remaining <= 5
}

/// Where the code of the next time step stands for the account with the
/// given index: one line, at the right edge inside border and padding.
pub fn peek_area(area: Area, index: usize) -> (place: Area)
    requires
        area.width >= CODE_WIDTH + PADDING_AFTER + BORDER_WIDTH,
        line_of(area, index as int) <= u16::MAX,
    ensures
        place == (Area {
            x: (area.width - CODE_WIDTH - PADDING_AFTER - BORDER_WIDTH) as u16,
            y: line_of(area, index as int) as u16,
            width: CODE_WIDTH,
            height: 1,
        }),
{
    Area {
        x: area.width - CODE_WIDTH - PADDING_AFTER - BORDER_WIDTH,
        y: (index + 1) as u16 + area.y,
        width: CODE_WIDTH,
        height: 1,
    }
}

/// Where the progress bar stands for the account with the given index: one
/// line, after the labels, as wide as what the labels, the padding, the border
/// and the code of the next time step leave of the area; of no width where they
/// leave nothing.
pub fn bar_area(area: Area, text_len: u16, index: usize, peek: bool) -> (place: Area)
    requires
        text_len + area.x + PADDING_BEFORE + BORDER_WIDTH <= u16::MAX,
        taken_columns(text_len, peek) <= u16::MAX,
        line_of(area, index as int) <= u16::MAX,
    ensures
        place.x == text_len + area.x + PADDING_BEFORE + BORDER_WIDTH,
        place.y == line_of(area, index as int),
        place.width == if area.width >= taken_columns(text_len, peek) {
            area.width - taken_columns(text_len, peek)
        } else {
            0
        },
        place.height == 1,
{
    let beside: u16 = if peek {
        CODE_WIDTH + 2
    } else {
        0
    };
    let taken: u16 = text_len + PADDING_BEFORE + PADDING_AFTER + 2 * BORDER_WIDTH + beside;
    Area {
        x: text_len + area.x + PADDING_BEFORE + BORDER_WIDTH,
        y: (index + 1) as u16 + area.y,
        width: if area.width >= taken {
            area.width - taken
        } else {
            0
        },
        height: 1,
    }
}

} // verus!
