//! Raster images: an owned grid of 8-bit RGBA pixels and its mathematical view.

use vstd::prelude::*;

verus! {

/// One RGBA pixel, 8 bits per channel.
#[derive(Clone, Copy, Debug, PartialEq, Eq, Structural)]
pub struct Pixel {
    pub r: u8,
    pub g: u8,
    pub b: u8,
    pub a: u8,
}

/// The mathematical value of an image: its dimensions and its rows of pixels,
/// top row first, each row left to right.
pub ghost struct ImageView {
    pub width: nat,
    pub height: nat,
    pub rows: Seq<Seq<Pixel>>,
}

impl ImageView {
    /// The grid has `height` rows of `width` pixels each, and both numbers
    /// fit in a `u32`.
    pub open spec fn wf(self) -> bool {
        &&& self.width <= u32::MAX
        &&& self.height <= u32::MAX
        &&& self.rows.len() == self.height
        &&& forall|y: int| 0 <= y < self.height ==> (#[trigger] self.rows[y]).len() == self.width
    }

    /// The pixel in column `x` of row `y`.
    pub open spec fn pixel(self, x: int, y: int) -> Pixel {
        self.rows[y][x]
    }

    /// Whether `(x, y)` lies inside the grid.
    pub open spec fn contains(self, x: int, y: int) -> bool {
        0 <= x < self.width && 0 <= y < self.height
    }

    /// The grid with the pixel at `(x, y)` replaced by `p`.
    pub open spec fn with_pixel(self, x: int, y: int, p: Pixel) -> ImageView {
        ImageView {
            width: self.width,
            height: self.height,
            rows: Seq::new(
                self.height,
                |j: int|
                    Seq::new(
                        self.width,
                        |i: int|
                            if i == x && j == y {
                                p
                            } else {
                                self.rows[j][i]
                            },
                    ),
            ),
        }
    }

    /// The `w` by `h` window of the grid whose top left corner is `(x, y)`.
    pub open spec fn window(self, x: int, y: int, w: nat, h: nat) -> ImageView {
        ImageView {
            width: w,
            height: h,
            rows: Seq::new(h, |j: int| Seq::new(w, |i: int| self.rows[y + j][x + i])),
        }
    }
}

/// The pixel that row-major RGBA bytes hold at column `x` of row `y`, in an
/// image `width` pixels wide.
pub open spec fn pixel_at(bytes: Seq<u8>, width: nat, x: int, y: int) -> Pixel {
    let k = 4 * (y * width + x);
    Pixel { r: bytes[k], g: bytes[k + 1], b: bytes[k + 2], a: bytes[k + 3] }
}

/// The grid that row-major RGBA bytes describe.
pub open spec fn grid(width: nat, height: nat, bytes: Seq<u8>) -> ImageView {
    ImageView {
        width,
        height,
        rows: Seq::new(height, |y: int| Seq::new(width, |x: int| pixel_at(bytes, width, x, y))),
    }
}

/// The grid in which every pixel is `pixel`.
pub open spec fn uniform(width: nat, height: nat, pixel: Pixel) -> ImageView {
    ImageView { width, height, rows: Seq::new(height, |y: int| Seq::new(width, |x: int| pixel)) }
}

/// Inside a `width` by `height` grid the four bytes of pixel `(x, y)` lie
/// within the first `4 * width * height` bytes.
proof fn lemma_pixel_offset(width: int, height: int, x: int, y: int)
    requires
        0 <= x < width,
        0 <= y < height,
    ensures
        0 <= y * width,
        0 <= y * width + x < width * height,
        4 * (y * width + x) + 3 < 4 * width * height,
{
    assert(0 <= y * width) by (nonlinear_arith)
        requires
            0 <= y,
            0 <= width,
    ;
    assert((y + 1) * width <= height * width) by (nonlinear_arith)
        requires
            y + 1 <= height,
            0 <= width,
    ;
    assert((y + 1) * width == y * width + width) by (nonlinear_arith);
    assert(4 * width * height == 4 * (width * height)) by (nonlinear_arith);
}

/// Different positions of a grid have different offsets.
proof fn lemma_offsets_differ(width: int, x1: int, y1: int, x2: int, y2: int)
    requires
        0 <= x1 < width,
        0 <= x2 < width,
        0 <= y1,
        0 <= y2,
        x1 != x2 || y1 != y2,
    ensures
        y1 * width + x1 != y2 * width + x2,
{
    if y1 < y2 {
        assert((y1 + 1) * width <= y2 * width) by (nonlinear_arith)
            requires
                y1 + 1 <= y2,
                0 <= width,
        ;
        assert((y1 + 1) * width == y1 * width + width) by (nonlinear_arith);
    } else if y2 < y1 {
        assert((y2 + 1) * width <= y1 * width) by (nonlinear_arith)
            requires
                y2 + 1 <= y1,
                0 <= width,
        ;
        assert((y2 + 1) * width == y2 * width + width) by (nonlinear_arith);
    }
}

/// Channel `c` of a pixel: red, green, blue and alpha are channels 0 to 3.
pub open spec fn channel(p: Pixel, c: int) -> u8 {
    if c == 0 {
        p.r
    } else if c == 1 {
        p.g
    } else if c == 2 {
        p.b
    } else {
        p.a
    }
}

/// The number of bytes that a `width` by `height` image occupies.
fn byte_count(width: u32, height: u32) -> (n: u128)
    ensures
        n == 4 * width * height,
        n % 4 == 0,
{
    assert(width * height <= 0xFFFF_FFFF * 0xFFFF_FFFF) by (nonlinear_arith)
        requires
            0 <= width <= 0xFFFF_FFFF,
            0 <= height <= 0xFFFF_FFFF,
    ;
    assert(4 * width * height == 4 * (width * height)) by (nonlinear_arith);
    let pixels: u64 = width as u64 * height as u64;
    4 * (pixels as u128)
}

/// An owned image: `width * height` RGBA pixels stored row by row.
#[derive(Debug)]
pub struct RasterImage {
    width: u32,
    height: u32,
    data: Vec<u8>,
}

impl View for RasterImage {
    type V = ImageView;

    closed spec fn view(&self) -> ImageView {
        grid(self.width as nat, self.height as nat, self.data@)
    }
}

impl RasterImage {
    #[verifier::type_invariant]
    spec fn inv(self) -> bool {
        self.data.len() == 4 * self.width * self.height
    }

    /// Builds an image from row-major RGBA bytes. The bytes are accepted
    /// exactly when there are four for each of the `width * height` pixels.
    pub fn from_raw(width: u32, height: u32, data: Vec<u8>) -> (res: Option<RasterImage>)
        ensures
            res is Some <==> data@.len() == 4 * width * height,
            res is Some ==> res->0@ == grid(width as nat, height as nat, data@),
            res is Some ==> res->0@.wf(),
    {
        let wanted: u128 = byte_count(width, height);
        if data.len() as u128 == wanted {
            Some(RasterImage { width, height, data })
        } else {
            None
        }
    }

    /// Builds an image in which every pixel is `pixel`. Fails only when the
    /// pixel bytes cannot be counted in a `usize`.
    pub fn filled(width: u32, height: u32, pixel: Pixel) -> (res: Option<RasterImage>)
        ensures
            res is Some <==> 4 * width * height <= usize::MAX,
            res is Some ==> res->0@ == uniform(width as nat, height as nat, pixel),
            res is Some ==> res->0@.wf(),
    {
        let wanted: u128 = byte_count(width, height);
        if wanted > usize::MAX as u128 {
            return None;
        }
        let count: usize = wanted as usize;
        let mut data: Vec<u8> = Vec::new();
        while data.len() < count
            invariant
                count % 4 == 0,
                data@.len() <= count,
                data@.len() % 4 == 0,
                forall|i: int| 0 <= i < data@.len() ==> #[trigger] data@[i] == channel(pixel, i % 4),
            decreases count - data@.len(),
        {
            data.push(pixel.r);
            data.push(pixel.g);
            data.push(pixel.b);
            data.push(pixel.a);
        }
        let img = RasterImage { width, height, data };
        proof {
            assert forall|x: int, y: int|
                0 <= x < width && 0 <= y < height implies pixel_at(
                img.data@,
                width as nat,
                x,
                y,
            ) == pixel by {
                lemma_pixel_offset(width as int, height as int, x, y);
            }
            assert(img@.rows =~~= uniform(width as nat, height as nat, pixel).rows);
        }
        Some(img)
    }

    /// Width in pixels.
    pub fn width(&self) -> (w: u32)
        ensures
            w == self@.width,
            self@.wf(),
    {
        self.width
    }

    /// Height in pixels.
    pub fn height(&self) -> (h: u32)
        ensures
            h == self@.height,
            self@.wf(),
    {
        self.height
    }

    /// The pixel in column `x` of row `y`.
    pub fn get_pixel(&self, x: u32, y: u32) -> (p: Pixel)
        requires
            self@.contains(x as int, y as int),
        ensures
            p == self@.pixel(x as int, y as int),
            self@.wf(),
    {
        proof {
            use_type_invariant(self);
            lemma_pixel_offset(self.width as int, self.height as int, x as int, y as int);
        }
        let k: usize = 4 * (y as usize * self.width as usize + x as usize);
        Pixel { r: self.data[k], g: self.data[k + 1], b: self.data[k + 2], a: self.data[k + 3] }
    }

    /// The image with the pixel in column `x` of row `y` replaced.
    pub fn with_pixel(self, x: u32, y: u32, pixel: Pixel) -> (res: RasterImage)
        requires
            self@.contains(x as int, y as int),
        ensures
            res@ == self@.with_pixel(x as int, y as int, pixel),
            res@.wf(),
    {
        proof {
            use_type_invariant(&self);
            lemma_pixel_offset(self.width as int, self.height as int, x as int, y as int);
        }
        let k: usize = 4 * (y as usize * self.width as usize + x as usize);
        let width = self.width;
        let height = self.height;
        let ghost before = self.data@;
        let mut data = self.data;
        data.set(k, pixel.r);
        data.set(k + 1, pixel.g);
        data.set(k + 2, pixel.b);
        data.set(k + 3, pixel.a);
        let res = RasterImage { width, height, data };
        proof {
            let w = width as nat;
            let after = res.data@;
            assert forall|i: int, j: int| 0 <= i < width && 0 <= j < height implies pixel_at(
                after,
                w,
                i,
                j,
            ) == (if i == x && j == y {
                pixel
            } else {
                pixel_at(before, w, i, j)
            }) by {
                lemma_pixel_offset(width as int, height as int, i, j);
                if i != x || j != y {
                    lemma_offsets_differ(width as int, i, j, x as int, y as int);
                }
            }
            assert(res@.rows =~~= self@.with_pixel(x as int, y as int, pixel).rows);
        }
        res
    }

    /// The image's row-major RGBA bytes.
    pub fn into_raw(self) -> (data: Vec<u8>)
        ensures
            data@.len() == 4 * self@.width * self@.height,
            grid(self@.width, self@.height, data@) == self@,
    {
        proof {
            use_type_invariant(&self);
        }
        self.data
    }
}

/// The smaller of two numbers.
pub open spec fn least(a: int, b: int) -> int {
    if a <= b {
        a
    } else {
        b
    }
}

/// The rectangle of `image` that starts at `(x, y)` and is `width` by
/// `height` pixels, cut down to what lies inside the image.
///
/// Calls `image::DynamicImage::crop_imm` on an RGBA8 image holding the same
/// bytes. Unproved claims: that call first moves the corner to at most the
/// image's own width and height, then shortens the sides to what is left to
/// the right of and below the corner, and copies each pixel of that
/// rectangle unchanged into a new image of exactly that size.
#[verifier::external_body]
pub(crate) fn crop_imm(image: &RasterImage, x: u32, y: u32, width: u32, height: u32) -> (out:
    RasterImage)
    ensures
        out@ == image@.window(
            least(x as int, image@.width as int),
            least(y as int, image@.height as int),
            least(width as int, image@.width - least(x as int, image@.width as int)) as nat,
            least(height as int, image@.height - least(y as int, image@.height as int)) as nat,
        ),
{
    let source = image::RgbaImage::from_raw(image.width, image.height, image.data.clone()).unwrap();
    let cut = image::DynamicImage::ImageRgba8(source).crop_imm(x, y, width, height).into_rgba8();
    RasterImage { width: cut.width(), height: cut.height(), data: cut.into_raw() }
}

impl Clone for RasterImage {
    /// A copy with the same dimensions and the same pixels.
    fn clone(&self) -> (res: Self)
        ensures
            res@ == self@,
    {
        proof {
            use_type_invariant(self);
        }
        let data = self.data.clone();
        RasterImage { width: self.width, height: self.height, data }
    }
}

} // verus!
