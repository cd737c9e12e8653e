//! Screen geometry: where displays and windows lie, and which axis tells
//! displays apart.
//!
//! Coordinates are compared, never added, so each one is held as an integer
//! that stands at the same place in the order of all coordinates. The sums that
//! give the centre and the end of a side are made where the frames are read.
use crate::model::DisplayData;
use crate::text::same_text;
use vstd::arithmetic::power2::{lemma_pow2_pos, lemma_pow2_strictly_increases, lemma_pow2_unfold, pow2};
use vstd::prelude::*;

verus! {

/// A coordinate, or the absence of one (not a number).
#[derive(Clone, Copy, Debug, PartialEq, Eq, Structural)]
pub struct Coordinate {
    pub key: Option<i64>,
}

/// Whether the bits of a double hold no number.
pub open spec fn is_not_a_number(bits: u64) -> bool {
    &&& (bits as int / 0x10_0000_0000_0000) % 0x800 == 0x7ff
    &&& bits as int % 0x10_0000_0000_0000 != 0
}

/// The bits of a double without the sign.
pub open spec fn magnitude_bits(bits: u64) -> int {
    bits as int % 0x8000_0000_0000_0000
}

/// The place of a double in the order of doubles: both zeros share one place.
pub open spec fn order_key(bits: u64) -> int {
    if bits < 0x8000_0000_0000_0000 {
        magnitude_bits(bits)
    } else {
        -magnitude_bits(bits)
    }
}

/// The absolute value of the double with these bits, counted in units of the smallest
/// positive double. An infinity counts as one step past the largest finite double.
pub open spec fn scaled_magnitude(magnitude: int) -> int {
    let exponent = magnitude / 0x10_0000_0000_0000;
    let fraction = magnitude % 0x10_0000_0000_0000;
    if exponent <= 0 {
        fraction
    } else {
        (0x10_0000_0000_0000 + fraction) * pow2((exponent - 1) as nat)
    }
}

/// The value of the double with these bits, in units of the smallest positive double.
pub open spec fn scaled_value(bits: u64) -> int {
    if bits < 0x8000_0000_0000_0000 {
        scaled_magnitude(magnitude_bits(bits))
    } else {
        -scaled_magnitude(magnitude_bits(bits))
    }
}

impl Coordinate {
    /// Whether this coordinate lies before the other.
    pub open spec fn precedes(self, other: Coordinate) -> bool {
        self.key is Some && other.key is Some && self.key->0 < other.key->0
    }

    /// Whether this coordinate lies before the other or at the same place.
    pub open spec fn at_most(self, other: Coordinate) -> bool {
        self.key is Some && other.key is Some && self.key->0 <= other.key->0
    }

    /// The coordinate of a double, from its bits.
    pub fn from_bits(bits: u64) -> (coordinate: Coordinate)
        ensures
            is_not_a_number(bits) ==> coordinate.key is None,
            !is_not_a_number(bits) ==> coordinate.key == Some(order_key(bits) as i64),
            !is_not_a_number(bits) ==> coordinate.key->0 == order_key(bits),
    {
        if (bits / 0x10_0000_0000_0000) % 0x800 == 0x7ff && bits % 0x10_0000_0000_0000 != 0 {
            Coordinate { key: None }
        } else if bits < 0x8000_0000_0000_0000 {
            Coordinate { key: Some(bits as i64) }
        } else {
            let magnitude: i64 = (bits - 0x8000_0000_0000_0000) as i64;
            Coordinate { key: Some(-magnitude) }
        }
    }

    /// Whether this coordinate lies before the other; never so without a number.
    pub fn is_before(self, other: Coordinate) -> (before: bool)
        ensures
            before == self.precedes(other),
    {
        match (self.key, other.key) {
            (Some(first), Some(second)) => first < second,
            _ => false,
        }
    }

    /// Whether this coordinate is not past the other; never so without a number.
    pub fn is_at_most(self, other: Coordinate) -> (at_most: bool)
        ensures
            at_most == self.at_most(other),
    {
        match (self.key, other.key) {
            (Some(first), Some(second)) => first <= second,
            _ => false,
        }
    }
}

/// One side of a frame: where it starts, its middle, and where it ends.
#[derive(Clone, Copy, Debug, PartialEq, Eq, Structural)]
pub struct Extent {
    pub start: Coordinate,
    pub center: Coordinate,
    pub end: Coordinate,
}

/// The frame of a display or a window.
#[derive(Clone, Copy, Debug, PartialEq, Eq, Structural)]
pub struct Rect {
    pub horizontal: Extent,
    pub vertical: Extent,
}

/// How a window's frame shows that the window is on a display.
#[derive(Clone, Copy, Debug, PartialEq, Eq, Structural)]
pub enum FrameValidation {
    /// By the horizontal middle of the window.
    Horizontal(Rect),
    /// By the vertical middle of the window.
    Vertical(Rect),
    /// Not at all: workspace membership decides alone.
    MembershipOnly,
}

/// Whether two open intervals share a point.
pub open spec fn overlap(first: Extent, second: Extent) -> bool {
    first.start.precedes(second.end) && second.start.precedes(first.end)
}

/// Whether no other display shares a row with the target.
pub open spec fn vertically_disjoint(target: DisplayData, displays: Seq<DisplayData>) -> bool {
    forall|i: int|
        0 <= i < displays.len() && (#[trigger] displays[i]).uuid@ != target.uuid@ ==> !overlap(
            target.frame.vertical,
            displays[i].frame.vertical,
        )
}

/// Whether no other display shares a column with the target.
pub open spec fn horizontally_disjoint(target: DisplayData, displays: Seq<DisplayData>) -> bool {
    forall|i: int|
        0 <= i < displays.len() && (#[trigger] displays[i]).uuid@ != target.uuid@ ==> !overlap(
            target.frame.horizontal,
            displays[i].frame.horizontal,
        )
}

/// The check by which a window's frame is held against the target display: by rows where
/// they tell the displays apart; else by columns, unless the layout scrolls along them.
pub open spec fn validation(
    target: DisplayData,
    displays: Seq<DisplayData>,
    layout_mode: Seq<char>,
) -> FrameValidation {
    if vertically_disjoint(target, displays) {
        FrameValidation::Vertical(target.frame)
    } else if layout_mode != "scrolling"@ && horizontally_disjoint(target, displays) {
        FrameValidation::Horizontal(target.frame)
    } else {
        FrameValidation::MembershipOnly
    }
}

/// Whether a window with this frame counts as being on the validated display.
pub open spec fn frame_matches(frame: Rect, validation: FrameValidation) -> bool {
    match validation {
        FrameValidation::Horizontal(display) => {
            &&& display.horizontal.start.at_most(frame.horizontal.center)
            &&& frame.horizontal.center.at_most(display.horizontal.end)
        },
        FrameValidation::Vertical(display) => {
            &&& display.vertical.start.at_most(frame.vertical.center)
            &&& frame.vertical.center.at_most(display.vertical.end)
        },
        FrameValidation::MembershipOnly => true,
    }
}

/// Whether two open intervals share a point.
pub fn intervals_overlap(
    first_min: Coordinate,
    first_max: Coordinate,
    second_min: Coordinate,
    second_max: Coordinate,
) -> (overlaps: bool)
    ensures
        overlaps == (first_min.precedes(second_max) && second_min.precedes(first_max)),
{
    first_min.is_before(second_max) && second_min.is_before(first_max)
}

/// Chooses the check by which a window's frame is held against the target display.
pub fn frame_validation(
    target: &DisplayData,
    displays: &Vec<DisplayData>,
    layout_mode: &str,
) -> (chosen: FrameValidation)
    ensures
        chosen == validation(*target, displays@, layout_mode@),
{
    let mut vertically_apart = true;
    let mut horizontally_apart = true;
    let mut next: usize = 0;
    while next < displays.len()
        invariant
            next <= displays.len(),
            vertically_apart == vertically_disjoint(*target, displays@.take(next as int)),
            horizontally_apart == horizontally_disjoint(*target, displays@.take(next as int)),
        decreases displays.len() - next,
    {
        let display = &displays[next];
        let ghost seen = displays@.take(next as int);
        let ghost more = displays@.take(next + 1);
        assert(more =~= seen.push(*display));
        assert(forall|i: int| 0 <= i < seen.len() ==> seen[i] == more[i]);
        assert(more[next as int] == *display);
        if !same_text(&display.uuid, &target.uuid) {
            let one = target.frame.vertical;
            let other = display.frame.vertical;
            if intervals_overlap(one.start, one.end, other.start, other.end) {
                vertically_apart = false;
            }
            let one = target.frame.horizontal;
            let other = display.frame.horizontal;
            if intervals_overlap(one.start, one.end, other.start, other.end) {
                horizontally_apart = false;
            }
        }
        next = next + 1;
    }
    assert(displays@.take(next as int) =~= displays@);
    if vertically_apart {
        FrameValidation::Vertical(target.frame)
    } else if same_text(layout_mode, "scrolling") {
        FrameValidation::MembershipOnly
    } else if horizontally_apart {
        FrameValidation::Horizontal(target.frame)
    } else {
        FrameValidation::MembershipOnly
    }
}

/// Whether a window with this frame counts as being on the validated display.
pub fn frame_matches_display(frame: &Rect, validation: FrameValidation) -> (matches: bool)
    ensures
        matches == frame_matches(*frame, validation),
{
    match validation {
        FrameValidation::Horizontal(display) => {
            display.horizontal.start.is_at_most(frame.horizontal.center)
                && frame.horizontal.center.is_at_most(display.horizontal.end)
        },
        FrameValidation::Vertical(display) => {
            display.vertical.start.is_at_most(frame.vertical.center)
                && frame.vertical.center.is_at_most(display.vertical.end)
        },
        FrameValidation::MembershipOnly => true,
    }
}

proof fn lemma_scaled_magnitude_increases(first: int, second: int)
    requires
        0 <= first < second,
    ensures
        0 <= scaled_magnitude(first) < scaled_magnitude(second),
{
    let unit: int = 0x10_0000_0000_0000;
    let e1 = first / unit;
    let f1 = first % unit;
    let e2 = second / unit;
    let f2 = second % unit;
    assert(e1 <= e2);
    if e2 > 0 {
        lemma_pow2_pos((e2 - 1) as nat);
        let scale2 = pow2((e2 - 1) as nat) as int;
        assert(unit * scale2 <= (unit + f2) * scale2) by (nonlinear_arith)
            requires
                0 <= f2,
                0 < scale2,
        ;
        if e1 == 0 {
            assert(unit <= unit * scale2) by (nonlinear_arith)
                requires
                    0 < scale2,
                    unit > 0,
            ;
        } else {
            lemma_pow2_pos((e1 - 1) as nat);
            let scale1 = pow2((e1 - 1) as nat) as int;
            assert(0 <= (unit + f1) * scale1) by (nonlinear_arith)
                requires
                    0 <= f1,
                    0 < scale1,
                    unit > 0,
            ;
            if e1 == e2 {
                assert((unit + f1) * scale1 < (unit + f2) * scale1) by (nonlinear_arith)
                    requires
                        f1 < f2,
                        0 < scale1,
                ;
            } else {
                lemma_pow2_unfold(e1 as nat);
                if e1 < e2 - 1 {
                    lemma_pow2_strictly_increases(e1 as nat, (e2 - 1) as nat);
                }
                assert(2 * scale1 <= scale2);
                assert((unit + f1) * scale1 < 2 * unit * scale1) by (nonlinear_arith)
                    requires
                        f1 < unit,
                        0 < scale1,
                ;
                assert(2 * unit * scale1 <= unit * scale2) by (nonlinear_arith)
                    requires
                        2 * scale1 <= scale2,
                        unit > 0,
                ;
            }
        }
    }
}

/// Coordinates stand in the order of the numbers that they were made from: one precedes
/// another exactly where its number is the smaller, and without a number neither holds.
pub proof fn coordinates_keep_the_order(first: u64, second: u64, one: Coordinate, other: Coordinate)
    requires
        is_not_a_number(first) ==> one.key is None,
        is_not_a_number(second) ==> other.key is None,
        !is_not_a_number(first) ==> one.key is Some && one.key->0 == order_key(first),
        !is_not_a_number(second) ==> other.key is Some && other.key->0 == order_key(second),
    ensures
        one.precedes(other) <==> !is_not_a_number(first) && !is_not_a_number(second)
            && scaled_value(first) < scaled_value(second),
        one.at_most(other) <==> !is_not_a_number(first) && !is_not_a_number(second)
            && scaled_value(first) <= scaled_value(second),
{
    let m1 = magnitude_bits(first);
    let m2 = magnitude_bits(second);
    if m1 < m2 {
        lemma_scaled_magnitude_increases(m1, m2);
    } else if m2 < m1 {
        lemma_scaled_magnitude_increases(m2, m1);
    }
    if 0 < m1 {
        lemma_scaled_magnitude_increases(0, m1);
    }
    if 0 < m2 {
        lemma_scaled_magnitude_increases(0, m2);
    }
}

/// With more than one display, a row shared with another display rules the vertical check
/// out, and scrolling columns are never judged by their horizontal place.
pub proof fn scrolling_columns_are_not_judged_by_column(
    target: DisplayData,
    displays: Seq<DisplayData>,
)
    ensures
        !(validation(target, displays, "scrolling"@) is Horizontal),
        !vertically_disjoint(target, displays) ==> validation(target, displays, "scrolling"@)
            is MembershipOnly,
{
}

/// Under the vertical check the horizontal place of a window does not matter.
pub proof fn vertical_check_ignores_the_column(frame: Rect, moved: Rect, display: Rect)
    requires
        frame.vertical == moved.vertical,
    ensures
        frame_matches(frame, FrameValidation::Vertical(display)) == frame_matches(
            moved,
            FrameValidation::Vertical(display),
        ),
{
}

/// Under the horizontal check the vertical place of a window does not matter.
pub proof fn horizontal_check_ignores_the_row(frame: Rect, moved: Rect, display: Rect)
    requires
        frame.horizontal == moved.horizontal,
    ensures
        frame_matches(frame, FrameValidation::Horizontal(display)) == frame_matches(
            moved,
            FrameValidation::Horizontal(display),
        ),
{
}

} // verus!
