//! The image as the library holds it: a grid of pixels in raw bytes.

use vstd::prelude::*;
use crate::color::Rgba;

verus! {

/// A grid of `width` by `height` pixels. The pixels lie row after row, the
/// top row first and each row from left to right, four bytes to a pixel:
/// red, green, blue, alpha.
pub struct PixelGrid {
    width: u32,
    height: u32,
    data: Vec<u8>,
}

/// What a grid is to the contracts: its size and its bytes.
pub struct PixelGridView {
    pub width: nat,
    pub height: nat,
    pub data: Seq<u8>,
}

impl PixelGridView {
    /// The bytes are exactly those of `width * height` pixels.
    pub open spec fn wf(self) -> bool {
        self.data.len() == 4 * self.width * self.height
    }

    /// Whether `(x, y)` names a pixel of the grid.
    pub open spec fn contains(self, x: int, y: int) -> bool {
        0 <= x < self.width && 0 <= y < self.height
    }

    /// Where the pixel at `(x, y)` begins among the bytes.
    pub open spec fn offset(self, x: int, y: int) -> int {
        4 * (y * self.width + x)
    }

    /// The pixel at column `x` of row `y`.
    pub open spec fn pixel(self, x: int, y: int) -> Rgba {
        let at = self.offset(x, y);
        Rgba { r: self.data[at], g: self.data[at + 1], b: self.data[at + 2], a: self.data[at + 3] }
    }
}

impl View for PixelGrid {
    type V = PixelGridView;

    closed spec fn view(&self) -> PixelGridView {
        PixelGridView {
            width: self.width as nat,
            height: self.height as nat,
            data: self.data@,
        }
    }
}

/// A pixel of a grid has its four bytes within the bytes of the grid.
pub proof fn lemma_pixel_within_bytes(grid: PixelGridView, x: int, y: int)
    requires
        grid.wf(),
        grid.contains(x, y),
    ensures
        0 <= grid.offset(x, y),
        grid.offset(x, y) + 4 <= grid.data.len(),
{
    let width = grid.width as int;
    let height = grid.height as int;
    assert(0 <= y * width) by (nonlinear_arith)
        requires
            0 <= y,
            0 <= width,
    ;
    assert((y + 1) * width <= height * width) by (nonlinear_arith)
        requires
            y + 1 <= height,
            0 <= width,
    ;
    assert((y + 1) * width == y * width + width) by (nonlinear_arith);
    assert(4 * grid.width * grid.height == 4 * (height * width)) by (nonlinear_arith)
        requires
            width == grid.width,
            height == grid.height,
    ;
}

impl PixelGrid {
    #[verifier::type_invariant]
    spec fn bytes_fit(self) -> bool {
        self.data@.len() == 4 * self.width * self.height
    }

    /// A grid of the given size over the given bytes; `None` unless they are
    /// exactly `4 * width * height` bytes.
    pub fn from_raw(width: u32, height: u32, data: Vec<u8>) -> (grid: Option<PixelGrid>)
        ensures
            grid is Some <==> data@.len() == 4 * width * height,
            grid matches Some(made) ==> made@ == (PixelGridView {
                width: width as nat,
                height: height as nat,
                data: data@,
            }),
    {
        assert(4 * width * height <= 4 * 0xffff_ffff * 0xffff_ffff) by (nonlinear_arith)
            requires
                width <= 0xffff_ffff,
                height <= 0xffff_ffff,
        ;
        let needed: u128 = 4 * (width as u128) * (height as u128);
        if data.len() as u128 == needed {
            Some(PixelGrid { width, height, data })
        } else {
            None
        }
    }

    /// The number of pixels in a row.
    pub fn width(&self) -> (width: u32)
        ensures
            width == self@.width,
    {
        self.width
    }

    /// The number of rows.
    pub fn height(&self) -> (height: u32)
        ensures
            height == self@.height,
    {
        self.height
    }

    /// Width and height, in this order.
    pub fn dimensions(&self) -> (size: (u32, u32))
        ensures
            size.0 == self@.width,
            size.1 == self@.height,
            self@.wf(),
    {
        proof {
            use_type_invariant(self);
        }
        (self.width, self.height)
    }

    /// The bytes of the grid.
    pub fn as_raw(&self) -> (data: &Vec<u8>)
        ensures
            data@ == self@.data,
            self@.wf(),
    {
        proof {
            use_type_invariant(self);
        }
        &self.data
    }

    /// Reads the pixel at column `x` of row `y`.
    pub fn get_pixel(&self, x: u32, y: u32) -> (pixel: Rgba)
        requires
            self@.contains(x as int, y as int),
        ensures
            pixel == self@.pixel(x as int, y as int),
    {
        proof {
            use_type_invariant(self);
            lemma_pixel_within_bytes(self@, x as int, y as int);
            assert(0 <= y * self.width) by (nonlinear_arith);
            assert(4 * (y * self.width + x) + 4 <= self.data.len());
        }
        let at: usize = 4 * (y as usize * self.width as usize + x as usize);
        Rgba::new(self.data[at], self.data[at + 1], self.data[at + 2], self.data[at + 3])
    }
}

} // verus!
