//! The size policy: how large the drawn grid may be.

use vstd::prelude::*;

verus! {

/// The largest width or height, in cells, of a drawn grid.
pub const MAX_BOUNDARY: u32 = 100;

/// The smallest width or height, in cells, of a drawn grid.
pub const MIN_BOUNDARY: u32 = 10;

/// One dimension held to the drawn size: capped at `MAX_BOUNDARY`, then
/// raised to `MIN_BOUNDARY`.
pub open spec fn clamp_dimension(value: nat) -> nat {
    let capped = if value < MAX_BOUNDARY { value } else { MAX_BOUNDARY as nat };
    if capped < MIN_BOUNDARY { MIN_BOUNDARY as nat } else { capped }
}

/// The drawn size for an image of the given size. Width and height are
/// clamped each on its own, so the aspect ratio is kept only when both
/// already lie within the bounds.
pub open spec fn scale_spec(original_boundary: (nat, nat)) -> (nat, nat) {
    (clamp_dimension(original_boundary.0), clamp_dimension(original_boundary.1))
}

/// Computes the drawn size for an image of the given `(width, height)`.
pub fn scale(original_boundary: (u32, u32)) -> (scaled: (u32, u32))
    ensures
        (scaled.0 as nat, scaled.1 as nat) == scale_spec(
            (original_boundary.0 as nat, original_boundary.1 as nat),
        ),
        MIN_BOUNDARY <= scaled.0 <= MAX_BOUNDARY,
        MIN_BOUNDARY <= scaled.1 <= MAX_BOUNDARY,
        MIN_BOUNDARY <= original_boundary.0 <= MAX_BOUNDARY ==> scaled.0
            == original_boundary.0,
        MIN_BOUNDARY <= original_boundary.1 <= MAX_BOUNDARY ==> scaled.1
            == original_boundary.1,
{
    (clamp(original_boundary.0), clamp(original_boundary.1))
}

/// Holds one dimension to the drawn size.
fn clamp(value: u32) -> (clamped: u32)
    ensures
        clamped as nat == clamp_dimension(value as nat),
{
    let capped = if value < MAX_BOUNDARY { value } else { MAX_BOUNDARY };
    if capped < MIN_BOUNDARY { MIN_BOUNDARY } else { capped }
}

/// Every drawn size lies within the bounds, whatever the size of the image.
pub proof fn lemma_scale_within_bounds(width: nat, height: nat)
    ensures
        MIN_BOUNDARY <= scale_spec((width, height)).0 <= MAX_BOUNDARY,
        MIN_BOUNDARY <= scale_spec((width, height)).1 <= MAX_BOUNDARY,
{
}

/// A size that already lies within the bounds is its own drawn size.
pub proof fn lemma_scale_keeps_size_in_bounds(width: nat, height: nat)
    requires
        MIN_BOUNDARY <= width <= MAX_BOUNDARY,
        MIN_BOUNDARY <= height <= MAX_BOUNDARY,
    ensures
        scale_spec((width, height)) == (width, height),
{
}

/// Scaling a drawn size changes nothing.
pub proof fn lemma_scale_idempotent(width: nat, height: nat)
    ensures
        scale_spec(scale_spec((width, height))) == scale_spec((width, height)),
{
}

} // verus!
