//! Where things stand on the screen, in character cells: the width of a
//! channel strip within its section, and the meters within a strip.

use vstd::prelude::*;

verus! {

/// Least width of a channel strip.
pub const MIN_STRIP_WIDTH: u16 = 8;

/// The meters of one strip within a row of cells: one meter or two, of
/// `meter_width` cells each, `gap` cells between the two, the first
/// starting `offset` cells into the row.
#[derive(Clone, Copy, Debug, PartialEq, Eq, Structural)]
pub struct MeterLayout {
    pub offset: u16,
    pub meter_width: u16,
    pub gap: u16,
    pub meters: u16,
}

impl MeterLayout {
    /// The cells from the first cell of the first meter to the last cell
    /// of the last.
    pub open spec fn span(self) -> int {
        if self.meters == 2 {
            2 * self.meter_width + self.gap
        } else {
            self.meter_width as int
        }
    }
}

/// The smaller of two numbers.
pub open spec fn least(a: int, b: int) -> int {
    if a < b {
        a
    } else {
        b
    }
}

/// The layout of a mono strip's meter in a row of `width` cells: one
/// meter, three cells wide if the row has them, in the middle.
pub open spec fn mono_layout(width: u16) -> MeterLayout {
    let meter_width = least(3, width as int);
    MeterLayout {
        offset: ((width - meter_width) / 2) as u16,
        meter_width: meter_width as u16,
        gap: 0,
        meters: 1,
    }
}

/// The layout of a stereo strip's meters in a row of `width` cells: two
/// meters, each two cells wide if the row has them, one cell apart if
/// the row has one to spare, together in the middle.
pub open spec fn stereo_layout(width: u16) -> MeterLayout {
    let meter_width = least(2, width as int / 2);
    let gap = least(1, width - 2 * meter_width);
    MeterLayout {
        offset: ((width - (2 * meter_width + gap)) / 2) as u16,
        meter_width: meter_width as u16,
        gap: gap as u16,
        meters: 2,
    }
}

/// Lays out the meters of a strip with `port_count` ports in a row of
/// `width` cells. The meters never reach beyond the row.
pub fn meter_layout(width: u16, port_count: usize) -> (l: MeterLayout)
    ensures
        l == if port_count == 1 {
            mono_layout(width)
        } else {
            stereo_layout(width)
        },
        l.offset + l.span() <= width,
{
    if port_count == 1 {
        let meter_width: u16 = if width < 3 {
            width
        } else {
            3
        };
        MeterLayout { offset: (width - meter_width) / 2, meter_width, gap: 0, meters: 1 }
    } else {
        let meter_width: u16 = if width / 2 < 2 {
            width / 2
        } else {
            2
        };
        let spare: u16 = width - 2 * meter_width;
        let gap: u16 = if spare < 1 {
            spare
        } else {
            1
        };
        let total: u16 = 2 * meter_width + gap;
        MeterLayout { offset: (width - total) / 2, meter_width, gap, meters: 2 }
    }
}

/// The width of each strip when `channels` strips share a section of
/// `width` cells: an equal share, but no less than `MIN_STRIP_WIDTH`.
pub fn strip_width(width: u16, channels: u16) -> (w: u16)
    requires
        channels > 0,
    ensures
        w == if width / channels < MIN_STRIP_WIDTH {
            MIN_STRIP_WIDTH as int
        } else {
            width as int / channels as int
        },
        w >= MIN_STRIP_WIDTH,
{
    let share: u16 = width / channels;
    if share < MIN_STRIP_WIDTH {
        MIN_STRIP_WIDTH
    } else {
        share
    }
}

} // verus!
