use vstd::prelude::*;

verus! {

/// Number of bytes that one RGBA pixel takes in a frame buffer.
pub const CHANNELS: usize = 4;

/// Mathematical picture of a captured frame: its dimensions and its raw
/// row-major RGBA bytes.
pub struct FrameView {
    pub width: nat,
    pub height: nat,
    pub data: Seq<u8>,
}

impl FrameView {
    /// The buffer holds at least one full RGBA pixel for every position.
    pub open spec fn wf(self) -> bool {
        self.data.len() >= 4 * self.width * self.height
    }

    pub open spec fn in_bounds(self, x: int, y: int) -> bool {
        0 <= x < self.width && 0 <= y < self.height
    }

    /// Index of the first byte of the pixel at `(x, y)`.
    pub open spec fn offset(self, x: int, y: int) -> int {
        4 * (y * self.width + x)
    }

    /// The pixel at `(x, y)` lies inside the frame and its red, green and
    /// blue channels equal `rgb` (alpha is ignored).
    pub open spec fn pixel_is(self, x: int, y: int, rgb: [u8; 3]) -> bool {
        &&& self.in_bounds(x, y)
        &&& self.data[self.offset(x, y)] == rgb[0]
        &&& self.data[self.offset(x, y) + 1] == rgb[1]
        &&& self.data[self.offset(x, y) + 2] == rgb[2]
    }
}

/// One captured raster image: `width * height` RGBA pixels stored row by row.
pub struct Frame {
    width: u32,
    height: u32,
    data: Vec<u8>,
}

impl View for Frame {
    type V = FrameView;

    closed spec fn view(&self) -> FrameView {
        FrameView { width: self.width as nat, height: self.height as nat, data: self.data@ }
    }
}

proof fn lemma_offset_fits(w: nat, h: nat, x: nat, y: nat)
    requires
        x < w,
        y < h,
    ensures
        y * w + x < w * h,
        4 * (y * w + x) + 3 < 4 * w * h,
{
    assert(y * w + x < w * h) by (nonlinear_arith)
        requires
            x < w,
            y < h,
    ;
    assert(4 * (w * h) == 4 * w * h) by (nonlinear_arith);
}

impl Frame {
    #[verifier::type_invariant]
    spec fn inv(&self) -> bool {
        self@.wf() && self.data@.len() <= usize::MAX
    }

    /// Wraps a raw RGBA buffer; `None` when the buffer is shorter than
    /// `4 * width * height` bytes.
    pub fn from_raw(width: u32, height: u32, data: Vec<u8>) -> (r: Option<Frame>)
        ensures
            r.is_some() <==> data@.len() >= 4 * width * height,
            r matches Some(f) ==> f@ == (FrameView {
                width: width as nat,
                height: height as nat,
                data: data@,
            }),
    {
        assert(width * height <= 0xffff_ffffu64 * 0xffff_ffffu64) by (nonlinear_arith)
            requires
                width <= 0xffff_ffffu64,
                height <= 0xffff_ffffu64,
        ;
        let needed: u128 = width as u128 * height as u128 * 4;
        assert(needed == 4 * width * height) by (nonlinear_arith)
            requires
                needed == width * height * 4,
        ;
        if needed <= data.len() as u128 {
            Some(Frame { width, height, data })
        } else {
            None
        }
    }

    pub fn width(&self) -> (r: u32)
        ensures
            r == self@.width,
    {
        self.width
    }

    pub fn height(&self) -> (r: u32)
        ensures
            r == self@.height,
    {
        self.height
    }

    /// Whether the pixel at `(x, y)` lies inside the frame and has the RGB
    /// value `rgb`. A point outside the frame never matches.
    pub fn pixel_is(&self, x: u32, y: u32, rgb: [u8; 3]) -> (r: bool)
        ensures
            r == self@.pixel_is(x as int, y as int, rgb),
    {
        if x >= self.width || y >= self.height {
            return false;
        }
        proof {
            use_type_invariant(self);
            lemma_offset_fits(self.width as nat, self.height as nat, x as nat, y as nat);
            assert(self.data@.len() >= 4 * self.width * self.height);
            assert(4 * (self.width * self.height) == 4 * self.width * self.height) by (nonlinear_arith);
            assert(y * self.width <= y * self.width + x);
            assert(y * self.width + x < self.data@.len());
            assert(self.data@.len() <= usize::MAX);
        }
        let yy = y as usize;
        let ww = self.width as usize;
        assert(yy * ww == y * self.width);
        let i = (yy * ww + x as usize) * CHANNELS;
        self.data[i] == rgb[0] && self.data[i + 1] == rgb[1] && self.data[i + 2] == rgb[2]
    }
}

} // verus!
