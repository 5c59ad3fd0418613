//! A canvas that only holds its pixels in memory, e.g. a loaded image.
use std::ops::Range;
use vstd::prelude::*;

use crate::canvas::{idx, Canvas};
use crate::color::Color;

verus! {

/// What the image decoder hands back.
pub enum DecodedImage {
    /// The decoder rejected the bytes, with its message.
    Failed(String),
    /// A high dynamic range image, decoded to floats.
    Hdr,
    /// An image of 8-bit channels: `depth` bytes per pixel, row by row.
    Bytes { width: usize, height: usize, depth: usize, data: Vec<u8> },
}

/// Why an image could not become a canvas.
#[derive(Debug, PartialEq, Eq)]
pub enum ImageError {
    /// The decoder failed, with its message.
    Decode(String),
    /// High dynamic range images are not supported.
    Hdr,
    /// Only images with three channels (RGB) are supported; this one has the given depth.
    Depth(usize),
    /// The image is wider or taller than a canvas can be.
    TooLarge,
}

/// Relies on stb_image's `image::load_from_memory`: an 8-bit image carries
/// width * height * depth bytes. (What it decodes also depends on stb_image's
/// process-wide flags, so nothing more is stated.)
#[verifier::external_body]
fn load_from_memory(bytes: &[u8]) -> (r: DecodedImage)
    ensures
        match r {
            DecodedImage::Bytes { width, height, depth, data } => data@.len() == width as int
                * height as int * depth as int,
            _ => true,
        },
{
    match stb_image::image::load_from_memory(bytes) {
        stb_image::image::LoadResult::Error(msg) => DecodedImage::Failed(msg),
        stb_image::image::LoadResult::ImageF32(_) => DecodedImage::Hdr,
        stb_image::image::LoadResult::ImageU8(img) => DecodedImage::Bytes {
            width: img.width,
            height: img.height,
            depth: img.depth,
            data: img.data,
        },
    }
}

/// A decoded image is well-formed when it carries one byte per channel of each pixel.
pub open spec fn decoded_wf(img: DecodedImage) -> bool {
    match img {
        DecodedImage::Bytes { width, height, depth, data } => data@.len() == width as int
            * height as int * depth as int,
        _ => true,
    }
}

/// Whether `r` is the canvas (or the error) that the decoded image `img` gives:
/// an RGB image becomes a canvas of its size whose pixel i is the opaque color
/// of bytes 3i, 3i + 1, 3i + 2.
pub open spec fn image_canvas(img: DecodedImage, r: Result<InMemoryCanvas, ImageError>) -> bool {
    match img {
        DecodedImage::Failed(msg) => r == Err::<InMemoryCanvas, ImageError>(ImageError::Decode(msg)),
        DecodedImage::Hdr => r == Err::<InMemoryCanvas, ImageError>(ImageError::Hdr),
        DecodedImage::Bytes { width, height, depth, data } => if depth != 3 {
            r == Err::<InMemoryCanvas, ImageError>(ImageError::Depth(depth))
        } else if width > u32::MAX || height > u32::MAX {
            r == Err::<InMemoryCanvas, ImageError>(ImageError::TooLarge)
        } else {
            match r {
                Ok(c) => c.wf() && c.spec_width() == width && c.spec_height() == height
                    && c.pixels().len() == width * height && forall|i: int|
                    0 <= i < width * height ==> #[trigger] c.pixels()[i] == (Color {
                        r: data@[3 * i],
                        g: data@[3 * i + 1],
                        b: data@[3 * i + 2],
                        a: 255,
                    }),
                Err(_) => false,
            }
        },
    }
}

/// A canvas whose pixels live in memory.
pub struct InMemoryCanvas {
    buffer: Vec<Color>,
    width: u32,
    height: u32,
}

impl InMemoryCanvas {
    /// A canvas of the given size with every pixel set to `color`.
    pub fn new(width: u32, height: u32, color: &Color) -> (r: Self)
        requires
            width as int * height as int <= usize::MAX,
        ensures
            r.wf(),
            r.spec_width() == width,
            r.spec_height() == height,
            r.pixels().len() == width as int * height as int,
            forall|i: int| 0 <= i < r.pixels().len() ==> #[trigger] r.pixels()[i] == *color,
    {
        let n: usize = width as usize * height as usize;
        let mut buffer: Vec<Color> = Vec::new();
        let mut i: usize = 0;
        while i < n
            invariant
                i <= n,
                buffer@.len() == i,
                forall|j: int| 0 <= j < i ==> #[trigger] buffer@[j] == *color,
            decreases n - i,
        {
            buffer.push(*color);
            i = i + 1;
        }
        InMemoryCanvas { buffer, width, height }
    }

    /// Turns a decoded image into a canvas. Only 8-bit RGB images are accepted.
    pub fn from_decoded(img: DecodedImage) -> (r: Result<Self, ImageError>)
        requires
            decoded_wf(img),
        ensures
            image_canvas(img, r),
    {
        match img {
            DecodedImage::Failed(msg) => Err(ImageError::Decode(msg)),
            DecodedImage::Hdr => Err(ImageError::Hdr),
            DecodedImage::Bytes { width, height, depth, data } => {
                if depth != 3 {
                    return Err(ImageError::Depth(depth));
                }
                if width > u32::MAX as usize || height > u32::MAX as usize {
                    return Err(ImageError::TooLarge);
                }
                let data_len = data.len();
                assert(width as int * height as int <= data_len) by (nonlinear_arith)
                    requires
                        data_len == width as int * height as int * depth as int,
                        depth == 3,
                ;
                let n: usize = width * height;
                assert(data@.len() == n * 3) by (nonlinear_arith)
                    requires
                        data@.len() == width as int * height as int * depth as int,
                        depth == 3,
                        n == width * height,
                ;
                let mut buffer: Vec<Color> = Vec::new();
                let mut i: usize = 0;
                while i < n
                    invariant
                        i <= n,
                        data@.len() == n * 3,
                        data_len == n * 3,
                        buffer@.len() == i,
                        forall|j: int|
                            0 <= j < i ==> #[trigger] buffer@[j] == (Color {
                                r: data@[3 * j],
                                g: data@[3 * j + 1],
                                b: data@[3 * j + 2],
                                a: 255,
                            }),
                    decreases n - i,
                {
                    buffer.push(Color::from_rgb(data[3 * i], data[3 * i + 1], data[3 * i + 2]));
                    i = i + 1;
                }
                Ok(InMemoryCanvas { buffer, width: width as u32, height: height as u32 })
            },
        }
    }

    /// Decodes an image (any 8-bit format stb_image reads) into a canvas.
    pub fn from_in_memory_image(bytes: &[u8]) -> (r: Result<Self, ImageError>)
        ensures
            exists|img: DecodedImage| decoded_wf(img) && #[trigger] image_canvas(img, r),
    {
        let img = load_from_memory(bytes);
        let ghost decoded = img;
        let r = Self::from_decoded(img);
        assert(decoded_wf(decoded) && image_canvas(decoded, r));
        r
    }
}

impl Canvas for InMemoryCanvas {
    closed spec fn pixels(&self) -> Seq<Color> {
        self.buffer@
    }

    closed spec fn spec_width(&self) -> u32 {
        self.width
    }

    closed spec fn spec_height(&self) -> u32 {
        self.height
    }

    closed spec fn wf(&self) -> bool {
        &&& self.buffer@.len() == self.width as int * self.height as int
        &&& self.buffer@.len() <= usize::MAX
    }

    proof fn lemma_wf(&self) {
    }

    fn width(&self) -> (r: u32) {
        self.width
    }

    fn height(&self) -> (r: u32) {
        self.height
    }

    fn set_range(&mut self, range: Range<usize>, color: &[Color]) {
        let mut k: usize = 0;
        let n: usize = range.end - range.start;
        while k < n
            invariant
                k <= n,
                n == range.end - range.start,
                range.end <= self.buffer@.len(),
                color@.len() == n,
                self.width == old(self).width,
                self.height == old(self).height,
                self.buffer@.len() == old(self).buffer@.len(),
                forall|i: int|
                    0 <= i < old(self).buffer@.len() ==> #[trigger] self.buffer@[i] == if range.start
                        <= i < range.start + k {
                        color@[i - range.start]
                    } else {
                        old(self).buffer@[i]
                    },
            decreases n - k,
        {
            self.buffer.set(range.start + k, color[k]);
            k = k + 1;
        }
    }

    fn get_range(&self, range: Range<usize>) -> (r: &[Color]) {
        &self.buffer.as_slice()[range]
    }
}

} // verus!
