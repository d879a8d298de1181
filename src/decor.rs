//! Placement of the diagonal tick marks that decorate lined and crossed boxes.
//!
//! A box with `lines` ticks splits them in two halves: the first `lines / 2` hang
//! from the corner-0 edge, the rest from the corner-1 edge. Each tick is offset from
//! its anchor by `step` times the per-line spacing; the spacing itself, and every
//! position derived from it, is computed by the caller from the box's size.
use vstd::prelude::*;

verus! {

/// One tick mark of a decorated box.
#[derive(Debug, Clone, Copy, PartialEq, Eq, Structural)]
pub struct TickMark {
    /// The corner (0 or 1) whose `x` anchors the tick.
    pub x_corner: usize,
    /// The corner (0 or 1) whose `y` anchors the tick: 0 in the first half, 1 after.
    pub y_corner: usize,
    /// How many line spacings the tick sits from its anchor (at least 1).
    pub step: u8,
    /// Whether the tick leans the other way (the horizontal sign is negated).
    pub flipped: bool,
}

/// The `i`-th tick of a box with `lines` ticks.
pub open spec fn tick_of(lines: u8, mirrored: bool, i: int) -> TickMark {
    let half = lines / 2;
    if i + 1 <= half {
        TickMark {
            x_corner: if mirrored { 1 } else { 0 },
            y_corner: 0,
            step: (i + 1) as u8,
            flipped: mirrored,
        }
    } else {
        TickMark {
            x_corner: if mirrored { 0 } else { 1 },
            y_corner: 1,
            step: (i + 1 - half) as u8,
            flipped: mirrored,
        }
    }
}

/// All ticks of a lined box, in drawing order.
pub open spec fn lined_ticks(lines: u8, mirrored: bool) -> Seq<TickMark> {
    Seq::new(lines as nat, |i: int| tick_of(lines, mirrored, i))
}

/// The ticks of a lined box, one per line, in drawing order.
pub fn lined_box_ticks(lines: u8, mirrored: bool) -> (r: Vec<TickMark>)
    ensures
        r@ == lined_ticks(lines, mirrored),
{
    let mut ticks: Vec<TickMark> = Vec::new();
    let half: u8 = lines / 2;
    let mut i: u8 = 0;
    while i < lines
        invariant
            i <= lines,
            half == lines / 2,
            ticks@ == lined_ticks(lines, mirrored).take(i as int),
        decreases lines - i,
    {
        let tick = if i + 1 <= half {
            TickMark {
                x_corner: if mirrored { 1 } else { 0 },
                y_corner: 0,
                step: i + 1,
                flipped: mirrored,
            }
        } else {
            TickMark {
                x_corner: if mirrored { 0 } else { 1 },
                y_corner: 1,
                step: i + 1 - half,
                flipped: mirrored,
            }
        };
        ticks.push(tick);
        proof {
            assert(ticks@ =~= lined_ticks(lines, mirrored).take(i + 1));
        }
        i = i + 1;
    }
    assert(ticks@ =~= lined_ticks(lines, mirrored));
    ticks
}

/// The ticks of a crossed box: those of a plain lined box, then those of the mirrored
/// one, which together cross over the box.
pub fn crossed_box_ticks(lines: u8) -> (r: Vec<TickMark>)
    ensures
        r@ == lined_ticks(lines, false) + lined_ticks(lines, true),
{
    let mut ticks = lined_box_ticks(lines, false);
    let mut mirrored = lined_box_ticks(lines, true);
    ticks.append(&mut mirrored);
    ticks
}

} // verus!
