//! Colours, and how far apart two of them are.

use vstd::prelude::*;

verus! {

/// A colour of four channels, eight bits each: red, green, blue and alpha.
#[derive(Clone, Copy, Debug, PartialEq, Eq, Structural)]
pub struct Rgba {
    pub r: u8,
    pub g: u8,
    pub b: u8,
    pub a: u8,
}

/// How far apart two channels are.
pub open spec fn channel_gap(left: u8, right: u8) -> nat {
    if left < right {
        (right - left) as nat
    } else {
        (left - right) as nat
    }
}

/// The square of the gap between two channels.
pub open spec fn channel_gap_squared(left: u8, right: u8) -> nat {
    channel_gap(left, right) * channel_gap(left, right)
}

/// The square of the Euclidean distance between two colours in RGB space.
/// Alpha takes no part in it.
///
/// Matching orders colours by distance. The square root grows strictly with
/// its argument, so the squares order them in the same way, ties included,
/// and stay within the integers.
pub open spec fn distance_squared(left: Rgba, right: Rgba) -> nat {
    channel_gap_squared(left.r, right.r) + channel_gap_squared(left.g, right.g)
        + channel_gap_squared(left.b, right.b)
}

/// The largest squared distance there is: from black to white.
pub const MAX_DISTANCE_SQUARED: u32 = 195075;

impl Rgba {
    /// The colour with the given channels.
    pub fn new(r: u8, g: u8, b: u8, a: u8) -> (color: Rgba)
        ensures
            color == (Rgba { r, g, b, a }),
    {
        Rgba { r, g, b, a }
    }

    /// Whether two colours have the same red, green and blue.
    pub open spec fn same_rgb(self, other: Rgba) -> bool {
        self.r == other.r && self.g == other.g && self.b == other.b
    }
}

/// Squares the gap between two channels.
pub(crate) fn gap_squared(left: u8, right: u8) -> (squared: u32)
    ensures
        squared == channel_gap_squared(left, right),
        squared <= 65025,
{
    let gap: u32 = if left < right { (right - left) as u32 } else { (left - right) as u32 };
    assert(gap * gap <= 65025) by (nonlinear_arith)
        requires
            gap <= 255,
    ;
    gap * gap
}

/// The distance between two colours does not depend on which comes first.
pub proof fn lemma_distance_symmetric(left: Rgba, right: Rgba)
    ensures
        distance_squared(left, right) == distance_squared(right, left),
{
}

/// A channel's gap is zero exactly when the two channels are equal.
pub proof fn lemma_gap_zero(left: u8, right: u8)
    ensures
        channel_gap_squared(left, right) == 0 <==> left == right,
{
    let gap = channel_gap(left, right);
    assert(gap * gap == 0 <==> gap == 0) by (nonlinear_arith);
}

/// Two colours are at distance zero exactly when they agree in red, green
/// and blue.
pub proof fn lemma_distance_zero(left: Rgba, right: Rgba)
    ensures
        distance_squared(left, right) == 0 <==> left.same_rgb(right),
{
    lemma_gap_zero(left.r, right.r);
    lemma_gap_zero(left.g, right.g);
    lemma_gap_zero(left.b, right.b);
}

} // verus!
