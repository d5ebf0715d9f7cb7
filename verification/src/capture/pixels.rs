//! An RGBA pixel buffer: the library's own form of a captured image.

use vstd::prelude::*;

verus! {

/// Number of bytes of a `width` x `height` RGBA buffer.
pub open spec fn rgba_len(width: u32, height: u32) -> int {
    width as int * height as int * 4
}

/// A row-major RGBA image, four bytes per pixel.
pub struct PixelBuffer {
    width: u32,
    height: u32,
    data: Vec<u8>,
}

impl PixelBuffer {
    #[verifier::type_invariant]
    spec fn well_formed(self) -> bool {
        self.data.len() == rgba_len(self.width, self.height)
    }

    /// Width in pixels.
    pub closed spec fn spec_width(&self) -> u32 {
        self.width
    }

    /// Height in pixels.
    pub closed spec fn spec_height(&self) -> u32 {
        self.height
    }

    /// The raw bytes, row by row, four per pixel.
    pub closed spec fn bytes(&self) -> Seq<u8> {
        self.data@
    }

    /// A fully transparent black image (`RgbaImage::new`).
    pub fn new(width: u32, height: u32) -> (r: PixelBuffer)
        requires
            rgba_len(width, height) <= usize::MAX,
        ensures
            r.spec_width() == width,
            r.spec_height() == height,
            r.bytes() == Seq::new(rgba_len(width, height) as nat, |i: int| 0u8),
    {
        let n = (width as usize) * (height as usize) * 4;
        let mut data: Vec<u8> = Vec::new();
        let mut i: usize = 0;
        while i < n
            invariant
                i <= n,
                data@ == Seq::new(i as nat, |k: int| 0u8),
            decreases n - i,
        {
            data.push(0u8);
            i = i + 1;
            assert(data@ =~= Seq::new(i as nat, |k: int| 0u8));
        }
        PixelBuffer { width, height, data }
    }

    /// Wraps raw RGBA bytes, if there are exactly four per pixel; a buffer
    /// of any other length is refused (where `ImageBuffer::from_raw` would
    /// also take a longer one).
    pub fn from_raw(width: u32, height: u32, data: Vec<u8>) -> (r: Option<PixelBuffer>)
        ensures
            r is Some <==> data.len() == rgba_len(width, height),
            r matches Some(b) ==> b.spec_width() == width && b.spec_height() == height && b.bytes()
                == data@,
    {
        let w = width as u128;
        let h = height as u128;
        proof {
            assert(w * h <= 0xFFFF_FFFFu128 * 0xFFFF_FFFFu128) by (nonlinear_arith)
                requires
                    w <= 0xFFFF_FFFFu128,
                    h <= 0xFFFF_FFFFu128,
            ;
        }
        if (data.len() as u128) == w * h * 4 {
            Some(PixelBuffer { width, height, data })
        } else {
            None
        }
    }

    /// Width in pixels.
    pub fn width(&self) -> (w: u32)
        ensures
            w == self.spec_width(),
    {
        self.width
    }

    /// Height in pixels.
    pub fn height(&self) -> (h: u32)
        ensures
            h == self.spec_height(),
    {
        self.height
    }

    /// The raw bytes.
    pub fn as_raw(&self) -> (r: &Vec<u8>)
        ensures
            r@ == self.bytes(),
            r@.len() == rgba_len(self.spec_width(), self.spec_height()),
    {
        proof {
            use_type_invariant(self);
        }
        &self.data
    }

    /// The raw bytes, consuming the buffer.
    pub fn into_raw(self) -> (r: Vec<u8>)
        ensures
            r@ == self.bytes(),
            r@.len() == rgba_len(self.spec_width(), self.spec_height()),
    {
        proof {
            use_type_invariant(&self);
        }
        self.data
    }

    /// The pixel at column `x`, row `y` (`ImageBuffer::get_pixel`, which
    /// panics outside the image).
    pub fn get_pixel(&self, x: u32, y: u32) -> (p: [u8; 4])
        requires
            x < self.spec_width(),
            y < self.spec_height(),
        ensures
            forall|c: int|
                0 <= c < 4 ==> p@[c] == self.bytes()[(y as int * self.spec_width() + x) * 4 + c],
    {
        proof {
            use_type_invariant(self);
            assert((y as int * self.width + x) * 4 + 3 < rgba_len(self.width, self.height)) by (nonlinear_arith)
                requires
                    x < self.width,
                    y < self.height,
            ;
        }
        let base = ((y as usize) * (self.width as usize) + (x as usize)) * 4;
        [self.data[base], self.data[base + 1], self.data[base + 2], self.data[base + 3]]
    }


    /// Wraps bytes already known to hold four per pixel.
    pub(crate) fn from_parts(width: u32, height: u32, data: Vec<u8>) -> (r: PixelBuffer)
        requires
            data.len() == rgba_len(width, height),
        ensures
            r.spec_width() == width,
            r.spec_height() == height,
            r.bytes() == data@,
    {
        PixelBuffer { width, height, data }
    }
}

}
