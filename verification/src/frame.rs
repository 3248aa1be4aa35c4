//! Pictures in memory, and their resizing.

use image::imageops::FilterType;
use image::RgbaImage;
use vstd::prelude::*;

verus! {

/// A side, in pixels, up to which the sampling positions that
/// `image::imageops::resize` computes in single precision stay inside the
/// picture, so that every output pixel has an input pixel of positive weight.
pub const MAX_SIDE: u32 = 4_194_304;

/// What a `Frame` is: its size and its bytes, row by row, four to a pixel in
/// the order red, green, blue, alpha.
pub struct FrameView {
    pub width: nat,
    pub height: nat,
    pub bytes: Seq<u8>,
}

impl FrameView {
    /// The bytes are those of `width * height` pixels.
    pub open spec fn wf(self) -> bool {
        &&& self.width <= u32::MAX
        &&& self.height <= u32::MAX
        &&& self.bytes.len() == 4 * (self.width * self.height)
    }
}

/// An RGBA picture.
pub struct Frame {
    width: u32,
    height: u32,
    bytes: Vec<u8>,
}

impl View for Frame {
    type V = FrameView;

    closed spec fn view(&self) -> FrameView {
        FrameView {
            width: self.width as nat,
            height: self.height as nat,
            bytes: self.bytes@,
        }
    }
}

/// The bytes of a picture after `image::imageops::resize` with the triangle
/// filter, given its bytes, its size and the size asked for.
pub uninterp spec fn triangle_resized(
    bytes: Seq<u8>,
    width: u32,
    height: u32,
    new_width: u32,
    new_height: u32,
) -> Seq<u8>;

/// Whether a picture of the first size can be resized to the second: a row of
/// either and the whole result can be addressed, and, where pixels are sampled at
/// all, so can the intermediate picture of four-byte samples, and no side is
/// longer than `MAX_SIDE`.
pub open spec fn resizable(width: int, height: int, new_width: int, new_height: int) -> bool {
    &&& 4 * width <= usize::MAX
    &&& 4 * new_width <= usize::MAX
    &&& 4 * (new_width * new_height) <= isize::MAX
    &&& {
        ||| width == 0
        ||| height == 0
        ||| (new_width == width && new_height == height)
        ||| {
            &&& width <= MAX_SIDE
            &&& height <= MAX_SIDE
            &&& new_width <= MAX_SIDE
            &&& new_height <= MAX_SIDE
            &&& 16 * (width * new_height) <= isize::MAX
        }
    }
}

/// Calls `image::imageops::resize` with the triangle filter on the picture that
/// `bytes` is, and takes the bytes of the result.
///
/// Not proved: that the result is `triangle_resized` of the arguments, that it
/// has four bytes for each pixel of the size asked for, and that resizing to
/// the size that the picture has copies it.
#[verifier::external_body]
fn resize_triangle(
    bytes: Vec<u8>,
    width: u32,
    height: u32,
    new_width: u32,
    new_height: u32,
) -> (resized: Vec<u8>)
    requires
        bytes@.len() == 4 * (width * height),
        resizable(width as int, height as int, new_width as int, new_height as int),
    ensures
        resized@ == triangle_resized(bytes@, width, height, new_width, new_height),
        resized@.len() == 4 * (new_width * new_height),
        new_width == width && new_height == height ==> resized@ == bytes@,
{
    let picture = RgbaImage::from_raw(width, height, bytes).unwrap();
    image::imageops::resize(&picture, new_width, new_height, FilterType::Triangle).into_raw()
}

/// The product of two sides fits 64 bits.
proof fn lemma_area_bound(a: u32, b: u32)
    ensures
        0 <= a * b <= u32::MAX * u32::MAX,
{
    assert(0 <= a * b <= u32::MAX * u32::MAX) by (nonlinear_arith)
        requires
            0 <= a <= u32::MAX,
            0 <= b <= u32::MAX,
    ;
}

/// Tells whether a picture of the first size can be resized to the second.
pub fn can_resize(width: u32, height: u32, new_width: u32, new_height: u32) -> (r: bool)
    ensures
        r == resizable(width as int, height as int, new_width as int, new_height as int),
{
    proof {
        lemma_area_bound(new_width, new_height);
        lemma_area_bound(width, new_height);
    }
    let result: u64 = new_width as u64 * new_height as u64;
    let sampled: u64 = width as u64 * new_height as u64;
    let limit: u64 = isize::MAX as u64;
    let row_limit: u64 = usize::MAX as u64;
    if 4 * width as u64 > row_limit || 4 * new_width as u64 > row_limit {
        return false;
    }
    if result > limit / 4 {
        return false;
    }
    if width == 0 || height == 0 || (new_width == width && new_height == height) {
        return true;
    }
    width <= MAX_SIDE && height <= MAX_SIDE && new_width <= MAX_SIDE && new_height <= MAX_SIDE
        && sampled <= limit / 16
}

impl Frame {
    #[verifier::type_invariant]
    spec fn inv(self) -> bool {
        self.bytes@.len() == 4 * (self.width * self.height)
    }

    /// The picture of the given size whose pixels are the first bytes of
    /// `bytes`; `None` where there are too few.
    pub fn from_raw(width: u32, height: u32, bytes: Vec<u8>) -> (r: Option<Frame>)
        ensures
            r is Some <==> 4 * (width * height) <= bytes@.len(),
            r matches Some(frame) ==> {
                &&& frame@.wf()
                &&& frame@.width == width
                &&& frame@.height == height
                &&& frame@.bytes == bytes@.take(4 * (width * height))
            },
    {
        proof {
            lemma_area_bound(width, height);
        }
        let pixels: u64 = width as u64 * height as u64;
        let len: u64 = bytes.len() as u64;
        if pixels > len / 4 {
            return None;
        }
        let mut bytes = bytes;
        bytes.truncate((4 * pixels) as usize);
        Some(Frame { width, height, bytes })
    }

    /// The width in pixels.
    pub fn width(&self) -> (w: u32)
        ensures
            w == self@.width,
            self@.wf(),
    {
        proof {
            use_type_invariant(self);
        }
        self.width
    }

    /// The height in pixels.
    pub fn height(&self) -> (h: u32)
        ensures
            h == self@.height,
            self@.wf(),
    {
        proof {
            use_type_invariant(self);
        }
        self.height
    }

    /// The bytes, row by row, four to a pixel.
    pub fn bytes(&self) -> (b: &Vec<u8>)
        ensures
            b@ == self@.bytes,
            self@.wf(),
    {
        proof {
            use_type_invariant(self);
        }
        &self.bytes
    }

    /// Gives up the picture for its bytes.
    pub fn into_raw(self) -> (b: Vec<u8>)
        ensures
            b@ == self@.bytes,
            self@.wf(),
    {
        proof {
            use_type_invariant(&self);
        }
        self.bytes
    }

    /// The picture in another size.
    pub fn resized(self, new_width: u32, new_height: u32) -> (r: Frame)
        requires
            resizable(
                self@.width as int,
                self@.height as int,
                new_width as int,
                new_height as int,
            ),
        ensures
            r@.wf(),
            r@.width == new_width,
            r@.height == new_height,
            r@.bytes == triangle_resized(
                self@.bytes,
                self@.width as u32,
                self@.height as u32,
                new_width,
                new_height,
            ),
            new_width == self@.width && new_height == self@.height ==> r@ == self@,
    {
        proof {
            use_type_invariant(&self);
        }
        let bytes = resize_triangle(self.bytes, self.width, self.height, new_width, new_height);
        Frame { width: new_width, height: new_height, bytes }
    }
}

/// A picture can be resized wherever rows and result can be addressed, and it
/// keeps its size, has no pixel, or no side is longer than 4 194 304 pixels and
/// there is room for the samples. Any other picture cannot.
pub proof fn law_sizes_that_can_be_resized(
    width: int,
    height: int,
    new_width: int,
    new_height: int,
)
    ensures
        resizable(width, height, new_width, new_height) ==> 4 * width <= usize::MAX && 4
            * new_width <= usize::MAX && 4 * (new_width * new_height) <= isize::MAX,
        ({
            let addressable = 4 * width <= usize::MAX && 4 * new_width <= usize::MAX && 4 * (
            new_width * new_height) <= isize::MAX;
            let short = width <= 4_194_304 && height <= 4_194_304 && new_width <= 4_194_304
                && new_height <= 4_194_304;
            let room = 16 * (width * new_height) <= isize::MAX;
            let same = new_width == width && new_height == height;
            &&& addressable && same ==> resizable(width, height, new_width, new_height)
            &&& addressable && (width == 0 || height == 0) ==> resizable(
                width,
                height,
                new_width,
                new_height,
            )
            &&& addressable && short && room ==> resizable(width, height, new_width, new_height)
            &&& !same && width != 0 && height != 0 && !(short && room) ==> !resizable(
                width,
                height,
                new_width,
                new_height,
            )
        }),
{
}

} // verus!
