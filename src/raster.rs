//! Decoded images as plain pixel buffers, and copying a rectangle out of one.
use vstd::prelude::*;

use crate::arith::{lemma_row_major, lemma_row_major_bound};
use crate::grid::{expected_check, BoundingBox, CellCheck, CellIndex, GridSpec};

verus! {

/// One pixel: red, green, blue and alpha channels.
#[derive(Debug, Clone, Copy, PartialEq, Eq, Structural)]
pub struct Rgba {
    pub r: u8,
    pub g: u8,
    pub b: u8,
    pub a: u8,
}

/// Why pixels could not be taken as an image.
#[derive(Debug, Clone, Copy, PartialEq, Eq, Structural)]
pub enum RasterError {
    /// The pixel count is not the width times the height.
    SizeMismatch,
}

/// The mathematical content of an image: its size and its pixels, row by
/// row from the top left.
pub struct RasterModel {
    pub width: nat,
    pub height: nat,
    pub pixels: Seq<Rgba>,
}

/// An image of `width` by `height` pixels stored row by row.
#[derive(Debug)]
pub struct Raster {
    width: u32,
    height: u32,
    pixels: Vec<Rgba>,
}

impl View for Raster {
    type V = RasterModel;

    closed spec fn view(&self) -> RasterModel {
        RasterModel { width: self.width as nat, height: self.height as nat, pixels: self.pixels@ }
    }
}

/// An image model whose pixel count matches its size.
pub open spec fn raster_valid(m: RasterModel) -> bool {
    &&& m.width <= u32::MAX
    &&& m.height <= u32::MAX
    &&& m.pixels.len() == m.width * m.height
}

/// The pixel at column `x` and row `y`.
pub open spec fn pixel_at(m: RasterModel, x: int, y: int) -> Rgba {
    m.pixels[y * m.width + x]
}

/// `part` holds exactly the pixels of `whole` inside `bbox`.
pub open spec fn is_region_of(part: RasterModel, whole: RasterModel, bbox: BoundingBox) -> bool {
    &&& raster_valid(part)
    &&& part.width == bbox.width
    &&& part.height == bbox.height
    &&& forall|i: int, j: int|
        0 <= i < bbox.width && 0 <= j < bbox.height ==> #[trigger] pixel_at(part, i, j) == pixel_at(
            whole,
            bbox.x + i,
            bbox.y + j,
        )
}

/// The pixels of a rectangle are determined by the image and the rectangle:
/// two images that both hold exactly the pixels of `whole` inside `bbox` are
/// the same image, so extracting a cell twice gives identical results.
pub proof fn lemma_region_unique(a: RasterModel, b: RasterModel, whole: RasterModel, bbox: BoundingBox)
    requires
        is_region_of(a, whole, bbox),
        is_region_of(b, whole, bbox),
    ensures
        a == b,
{
    let w = bbox.width as int;
    assert forall|k: int| 0 <= k < a.pixels.len() implies a.pixels[k] == b.pixels[k] by {
        if w == 0 {
            assert(a.pixels.len() == 0) by (nonlinear_arith)
                requires
                    a.pixels.len() == a.width * a.height,
                    a.width == 0,
            ;
        } else {
            vstd::arithmetic::div_mod::lemma_fundamental_div_mod(k, w);
            let i = k % w;
            let j = k / w;
            assert(0 <= j < bbox.height) by (nonlinear_arith)
                requires
                    k == w * j + i,
                    0 <= i < w,
                    0 <= k < w * bbox.height,
            ;
            assert(j * w + i == k) by (nonlinear_arith)
                requires
                    k == w * j + i,
            ;
            assert(pixel_at(a, i, j) == pixel_at(whole, bbox.x + i, bbox.y + j));
            assert(pixel_at(b, i, j) == pixel_at(whole, bbox.x + i, bbox.y + j));
        }
    }
    assert(a.pixels =~= b.pixels);
}

impl Raster {
    #[verifier::type_invariant]
    spec fn inv(&self) -> bool {
        raster_valid(self@)
    }

    /// Takes `pixels`, row by row from the top left, as a `width` by
    /// `height` image; refuses them unless there are exactly `width * height`.
    pub fn new(width: u32, height: u32, pixels: Vec<Rgba>) -> (r: Result<Raster, RasterError>)
        ensures
            pixels@.len() == width * height <==> r is Ok,
            r matches Ok(img) ==> img@ == (RasterModel {
                width: width as nat,
                height: height as nat,
                pixels: pixels@,
            }),
            r matches Err(e) ==> e == RasterError::SizeMismatch,
    {
        assert(width as u64 * height as u64 <= 0xffff_fffe_0000_0001u64) by (nonlinear_arith)
            requires
                width <= 0xffff_ffffu32,
                height <= 0xffff_ffffu32,
        ;
        if pixels.len() as u64 == width as u64 * height as u64 {
            Ok(Raster { width, height, pixels })
        } else {
            Err(RasterError::SizeMismatch)
        }
    }

    pub fn width(&self) -> (r: u32)
        ensures
            r == self@.width,
    {
        self.width
    }

    pub fn height(&self) -> (r: u32)
        ensures
            r == self@.height,
    {
        self.height
    }

    /// The pixels, row by row from the top left.
    pub fn pixels(&self) -> (r: &Vec<Rgba>)
        ensures
            r@ == self@.pixels,
            r@.len() == self@.width * self@.height,
    {
        proof {
            use_type_invariant(self);
        }
        &self.pixels
    }

    /// The pixel at column `x` and row `y`.
    pub fn pixel(&self, x: u32, y: u32) -> (r: Rgba)
        requires
            x < self@.width,
            y < self@.height,
        ensures
            r == pixel_at(self@, x as int, y as int),
    {
        proof {
            use_type_invariant(self);
            lemma_row_major_bound(y as int, x as int, self.width as int, self.height as int);
            assert(self.height * self.width == self.width * self.height) by (nonlinear_arith);
        }
        let n = self.pixels.len();
        self.pixels[y as usize * self.width as usize + x as usize]
    }

    /// Copies the pixels inside `bbox` into a new image of the box's size.
    /// The source is left unchanged.
    pub fn extract(&self, bbox: BoundingBox) -> (r: Raster)
        requires
            bbox.x + bbox.width <= self@.width,
            bbox.y + bbox.height <= self@.height,
        ensures
            is_region_of(r@, self@, bbox),
    {
        proof {
            use_type_invariant(self);
        }
        let ghost m = self@;
        let n = self.pixels.len();
        let bw = bbox.width;
        let bh = bbox.height;
        proof {
            assert(bw * bh <= m.width * m.height) by (nonlinear_arith)
                requires
                    bw <= m.width,
                    bh <= m.height,
            ;
            assert(m.height * m.width == m.width * m.height) by (nonlinear_arith);
        }
        let mut out: Vec<Rgba> = Vec::new();
        let mut j: u32 = 0;
        while j < bh
            invariant
                m == self@,
                raster_valid(m),
                n == m.pixels.len(),
                bbox.x + bw <= m.width,
                bbox.y + bh <= m.height,
                bw == bbox.width,
                bh == bbox.height,
                bw * bh <= m.width * m.height,
                m.height * m.width == m.width * m.height,
                j <= bh,
                out@.len() == j * bw,
                forall|k: int|
                    0 <= k < out@.len() ==> #[trigger] out@[k] == pixel_at(m, bbox.x + k % (bw as int), bbox.y + k / (bw as int)),
            decreases bh - j,
        {
            let mut i: u32 = 0;
            while i < bw
                invariant
                    m == self@,
                    raster_valid(m),
                    n == m.pixels.len(),
                    bbox.x + bw <= m.width,
                    bbox.y + bh <= m.height,
                    bw == bbox.width,
                    bh == bbox.height,
                    bw * bh <= m.width * m.height,
                    m.height * m.width == m.width * m.height,
                    j < bh,
                    i <= bw,
                    out@.len() == j * bw + i,
                    forall|k: int|
                        0 <= k < out@.len() ==> #[trigger] out@[k] == pixel_at(m, bbox.x + k % (bw as int), bbox.y + k / (bw as int)),
                decreases bw - i,
            {
                let ghost k = out@.len() as int;
                let sx = bbox.x + i;
                let sy = bbox.y + j;
                proof {
                    lemma_row_major(k, j as int, i as int, bw as int);
                    lemma_row_major_bound(sy as int, sx as int, m.width as int, m.height as int);
                }
                let p = self.pixels[sy as usize * self.width as usize + sx as usize];
                out.push(p);
                i = i + 1;
            }
            proof {
                assert((j + 1) * bw == j * bw + bw) by (nonlinear_arith);
            }
            j = j + 1;
        }
        let r = Raster { width: bw, height: bh, pixels: out };
        proof {
            assert forall|i: int, j: int| 0 <= i < bw && 0 <= j < bh implies #[trigger] pixel_at(r@, i, j)
                == pixel_at(m, bbox.x + i, bbox.y + j) by {
                lemma_row_major(j * bw + i, j, i, bw as int);
                lemma_row_major_bound(j, i, bw as int, bh as int);
                assert(bh * bw == bw * bh) by (nonlinear_arith);
            }
        }
        r
    }
}

impl GridSpec {
    /// Checks the cell at `index` against `image` and, when it is admitted,
    /// copies its pixels out.
    pub fn extract_cell(&self, image: &Raster, index: CellIndex) -> (r: Option<Raster>)
        ensures
            match expected_check(self@, index.column as int, index.row as int, image@.width as int, image@.height as int) {
                CellCheck::Admitted(bbox) => r matches Some(cell) && is_region_of(cell@, image@, bbox),
                CellCheck::Skipped(_) => r is None,
            },
    {
        match self.check_cell(index, image.width(), image.height()) {
            CellCheck::Admitted(bbox) => Some(image.extract(bbox)),
            CellCheck::Skipped(_) => None,
        }
    }
}

} // verus!
