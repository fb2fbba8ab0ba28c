//! The image texture's raster.
//!
//! The caller decodes the image file and maps the clamped texture
//! coordinates to a nearest pixel index with floating-point arithmetic;
//! held and verified here are the decoded raster itself, the pull-back of a
//! rounded index onto it, and the texel fetch.

use vstd::prelude::*;

verus! {

/// A decoded texture raster: RGBA bytes, row-major.
pub struct ImageTexture {
    width: u32,
    height: u32,
    image: Vec<u8>,
}

impl ImageTexture {
    pub closed spec fn width_spec(self) -> int {
        self.width as int
    }

    pub closed spec fn height_spec(self) -> int {
        self.height as int
    }

    /// The raster bytes.
    pub closed spec fn bytes_spec(self) -> Seq<u8> {
        self.image@
    }

    /// The bytes really are the full raster, four per pixel.
    pub closed spec fn wf(self) -> bool {
        &&& self.image@.len() == 4 * self.width as int * self.height as int
        &&& 4 * self.width as int * self.height as int <= usize::MAX as int
    }

    /// Wrap a decoded raster: `image` holds four bytes per pixel, row-major.
    pub fn new(width: u32, height: u32, image: Vec<u8>) -> (t: ImageTexture)
        requires
            image@.len() == 4 * width as int * height as int,
        ensures
            t.wf(),
            t.width_spec() == width as int,
            t.height_spec() == height as int,
            t.bytes_spec() == image@,
    {
        let n: usize = image.len();
        proof {
            assert(image@.len() == n as int);
        }
        ImageTexture { width, height, image }
    }

    pub fn width(&self) -> (w: u32)
        ensures
            w as int == self.width_spec(),
    {
        self.width
    }

    pub fn height(&self) -> (h: u32)
        ensures
            h as int == self.height_spec(),
    {
        self.height
    }

    /// The four bytes of the pixel at `(i, j)`: red, green, blue, alpha.
    pub fn texel(&self, i: u32, j: u32) -> (p: (u8, u8, u8, u8))
        requires
            self.wf(),
            i < self.width_spec(),
            j < self.height_spec(),
        ensures
            p.0 == self.bytes_spec()[4 * (j * self.width_spec() + i)],
            p.1 == self.bytes_spec()[4 * (j * self.width_spec() + i) + 1],
            p.2 == self.bytes_spec()[4 * (j * self.width_spec() + i) + 2],
            p.3 == self.bytes_spec()[4 * (j * self.width_spec() + i) + 3],
    {
        proof {
            assert(0 <= 4 * (j * self.width as int + i) && 4 * (j * self.width as int + i) + 3
                < 4 * self.width as int * self.height as int) by (nonlinear_arith)
                requires
                    0 <= i < self.width as int,
                    0 <= j < self.height as int,
            ;
        }
        let idx: usize = 4 * (j as usize * self.width as usize + i as usize);
        (self.image[idx], self.image[idx + 1], self.image[idx + 2], self.image[idx + 3])
    }
}

/// Pull a rounded nearest-pixel index back onto the raster: rounding a
/// coordinate in `[0, 1]` can land exactly on `size`, which steps back to
/// the last pixel.
pub fn clamp_index(i: u32, size: u32) -> (r: u32)
    requires
        size >= 1,
        i <= size,
    ensures
        r as int == if i < size {
            i as int
        } else {
            size as int - 1
        },
{
    if i >= size {
        i - 1
    } else {
        i
    }
}

} // verus!
