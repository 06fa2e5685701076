//! Content cropping: trimming a page image to the smallest rectangle that
//! holds every pixel that is not background.

use crate::raster::{crop_imm, ImageView, Pixel, RasterImage};
use vstd::prelude::*;

verus! {

/// How far below 255 a channel may lie for a pixel to still count as white.
pub const DEFAULT_TOLERANCE: u8 = 10;

/// The smallest rectangle that holds all content, by its first and last
/// column and its first and last row.
#[derive(Clone, Copy, Debug, PartialEq, Eq, Structural)]
pub struct ContentBox {
    pub min_x: u32,
    pub min_y: u32,
    pub max_x: u32,
    pub max_y: u32,
}

impl ContentBox {
    /// Number of columns in the box.
    pub open spec fn spec_width(self) -> nat {
        (self.max_x - self.min_x + 1) as nat
    }

    /// Number of rows in the box.
    pub open spec fn spec_height(self) -> nat {
        (self.max_y - self.min_y + 1) as nat
    }
}

/// A pixel is background when each of its four channels is within
/// `tolerance` of 255, that is of opaque white.
pub open spec fn is_background(p: Pixel, tolerance: u8) -> bool {
    &&& p.r >= 255 - tolerance
    &&& p.g >= 255 - tolerance
    &&& p.b >= 255 - tolerance
    &&& p.a >= 255 - tolerance
}

/// `(x, y)` is a position of the grid that holds a pixel that is not background.
pub open spec fn is_content(v: ImageView, tolerance: u8, x: int, y: int) -> bool {
    v.contains(x, y) && !is_background(v.pixel(x, y), tolerance)
}

/// The grid holds at least one pixel that is not background.
pub open spec fn has_content(v: ImageView, tolerance: u8) -> bool {
    exists|x: int, y: int| is_content(v, tolerance, x, y)
}

/// `b` encloses all content of the grid and each of its four sides touches
/// some content.
pub open spec fn is_content_box(v: ImageView, tolerance: u8, b: ContentBox) -> bool {
    &&& forall|x: int, y: int| #[trigger]
        is_content(v, tolerance, x, y) ==> b.min_x <= x <= b.max_x && b.min_y <= y <= b.max_y
    &&& exists|y: int| is_content(v, tolerance, b.min_x as int, y)
    &&& exists|y: int| is_content(v, tolerance, b.max_x as int, y)
    &&& exists|x: int| is_content(v, tolerance, x, b.min_y as int)
    &&& exists|x: int| is_content(v, tolerance, x, b.max_y as int)
}

/// The content box of a grid that has content.
pub open spec fn content_box(v: ImageView, tolerance: u8) -> ContentBox {
    choose|b: ContentBox| is_content_box(v, tolerance, b)
}

/// The grid trimmed to its content box; a grid without content stays as it is.
pub open spec fn cropped(v: ImageView, tolerance: u8) -> ImageView {
    if has_content(v, tolerance) {
        let b = content_box(v, tolerance);
        v.window(b.min_x as int, b.min_y as int, b.spec_width(), b.spec_height())
    } else {
        v
    }
}

/// A grid has at most one content box.
pub proof fn lemma_content_box_unique(v: ImageView, tolerance: u8, a: ContentBox, b: ContentBox)
    requires
        is_content_box(v, tolerance, a),
        is_content_box(v, tolerance, b),
    ensures
        a == b,
{
}

/// A content box lies inside the grid, and a grid with a content box has content.
pub proof fn lemma_content_box_inside(v: ImageView, tolerance: u8, b: ContentBox)
    requires
        is_content_box(v, tolerance, b),
    ensures
        has_content(v, tolerance),
        content_box(v, tolerance) == b,
        b.min_x <= b.max_x < v.width,
        b.min_y <= b.max_y < v.height,
{
    lemma_content_box_unique(v, tolerance, content_box(v, tolerance), b);
}

/// Column `k` holds content (`column` is true), or row `k` does.
pub open spec fn line_has_content(v: ImageView, tolerance: u8, column: bool, k: int) -> bool {
    if column {
        exists|y: int| is_content(v, tolerance, k, y)
    } else {
        exists|x: int| is_content(v, tolerance, x, k)
    }
}

/// Where one of the first `n` lines holds content, there is a first such line.
proof fn lemma_first_line(v: ImageView, tolerance: u8, column: bool, n: int) -> (m: int)
    requires
        exists|k: int| 0 <= k < n && line_has_content(v, tolerance, column, k),
    ensures
        0 <= m < n,
        line_has_content(v, tolerance, column, m),
        forall|k: int| 0 <= k < m ==> !line_has_content(v, tolerance, column, k),
    decreases n,
{
    if exists|k: int| 0 <= k < n - 1 && line_has_content(v, tolerance, column, k) {
        lemma_first_line(v, tolerance, column, n - 1)
    } else {
        n - 1
    }
}

/// Where one of the first `n` lines holds content, there is a last such line.
proof fn lemma_last_line(v: ImageView, tolerance: u8, column: bool, n: int) -> (m: int)
    requires
        exists|k: int| 0 <= k < n && line_has_content(v, tolerance, column, k),
    ensures
        0 <= m < n,
        line_has_content(v, tolerance, column, m),
        forall|k: int| m < k < n ==> !line_has_content(v, tolerance, column, k),
    decreases n,
{
    if line_has_content(v, tolerance, column, n - 1) {
        n - 1
    } else {
        lemma_last_line(v, tolerance, column, n - 1)
    }
}

/// A well-formed grid with content has a content box.
pub proof fn lemma_content_box_exists(v: ImageView, tolerance: u8)
    requires
        v.wf(),
        has_content(v, tolerance),
    ensures
        is_content_box(v, tolerance, content_box(v, tolerance)),
{
    let (cx, cy) = choose|x: int, y: int| is_content(v, tolerance, x, y);
    assert(line_has_content(v, tolerance, true, cx));
    assert(line_has_content(v, tolerance, false, cy));
    let min_x = lemma_first_line(v, tolerance, true, v.width as int);
    let max_x = lemma_last_line(v, tolerance, true, v.width as int);
    let min_y = lemma_first_line(v, tolerance, false, v.height as int);
    let max_y = lemma_last_line(v, tolerance, false, v.height as int);
    let b = ContentBox {
        min_x: min_x as u32,
        min_y: min_y as u32,
        max_x: max_x as u32,
        max_y: max_y as u32,
    };
    assert forall|x: int, y: int| #[trigger] is_content(v, tolerance, x, y) implies b.min_x <= x
        <= b.max_x && b.min_y <= y <= b.max_y by {
        assert(line_has_content(v, tolerance, true, x));
        assert(line_has_content(v, tolerance, false, y));
    }
    assert(is_content_box(v, tolerance, b));
}

/// Whether a pixel is background.
pub fn pixel_is_background(p: Pixel, tolerance: u8) -> (res: bool)
    ensures
        res == is_background(p, tolerance),
{
    let floor: u8 = 255 - tolerance;
    p.r >= floor && p.g >= floor && p.b >= floor && p.a >= floor
}

/// `(x, y)` comes before `(cx, cy)` when the grid is read row by row.
pub open spec fn scanned(cx: int, cy: int, x: int, y: int) -> bool {
    y < cy || (y == cy && x < cx)
}

/// Finds the content box by reading every pixel once.
///
/// The result is `None` exactly when the image has no content.
pub fn content_bounds(img: &RasterImage, tolerance: u8) -> (res: Option<ContentBox>)
    ensures
        res is None <==> !has_content(img@, tolerance),
        res is Some ==> is_content_box(img@, tolerance, res->0),
        res is Some ==> res->0 == content_box(img@, tolerance),
{
    let width = img.width();
    let height = img.height();
    let mut min_x: u32 = width;
    let mut min_y: u32 = height;
    let mut max_x: u32 = 0;
    let mut max_y: u32 = 0;
    let mut found = false;
    let ghost v = img@;
    let ghost mut at_min_x: int = 0;
    let ghost mut at_max_x: int = 0;
    let ghost mut at_min_y: int = 0;
    let ghost mut at_max_y: int = 0;
    let mut y: u32 = 0;
    while y < height
        invariant
            v == img@,
            width == v.width,
            height == v.height,
            y <= height,
            !found ==> forall|i: int, j: int| scanned(0, y as int, i, j) ==> !is_content(v, tolerance, i, j),
            found ==> {
                &&& forall|i: int, j: int|
                    scanned(0, y as int, i, j) && #[trigger] is_content(v, tolerance, i, j) ==> min_x
                        <= i <= max_x && min_y <= j <= max_y
                &&& is_content(v, tolerance, min_x as int, at_min_x)
                &&& is_content(v, tolerance, max_x as int, at_max_x)
                &&& is_content(v, tolerance, at_min_y, min_y as int)
                &&& is_content(v, tolerance, at_max_y, max_y as int)
            },
        decreases height - y,
    {
        let mut x: u32 = 0;
        while x < width
            invariant
                v == img@,
                width == v.width,
                height == v.height,
                y < height,
                x <= width,
                !found ==> forall|i: int, j: int|
                    scanned(x as int, y as int, i, j) ==> !is_content(v, tolerance, i, j),
                found ==> {
                    &&& forall|i: int, j: int|
                        scanned(x as int, y as int, i, j) && #[trigger] is_content(v, tolerance, i, j)
                            ==> min_x <= i <= max_x && min_y <= j <= max_y
                    &&& is_content(v, tolerance, min_x as int, at_min_x)
                    &&& is_content(v, tolerance, max_x as int, at_max_x)
                    &&& is_content(v, tolerance, at_min_y, min_y as int)
                    &&& is_content(v, tolerance, at_max_y, max_y as int)
                },
            decreases width - x,
        {
            let p = img.get_pixel(x, y);
            if !pixel_is_background(p, tolerance) {
                if !found || x < min_x {
                    min_x = x;
                    proof {
                        at_min_x = y as int;
                    }
                }
                if !found || y < min_y {
                    min_y = y;
                    proof {
                        at_min_y = x as int;
                    }
                }
                if !found || x > max_x {
                    max_x = x;
                    proof {
                        at_max_x = y as int;
                    }
                }
                if !found || y > max_y {
                    max_y = y;
                    proof {
                        at_max_y = x as int;
                    }
                }
                found = true;
            }
            x = x + 1;
        }
        y = y + 1;
    }
    if found {
        let b = ContentBox { min_x, min_y, max_x, max_y };
        proof {
            assert forall|i: int, j: int| #[trigger] is_content(v, tolerance, i, j) implies b.min_x
                <= i <= b.max_x && b.min_y <= j <= b.max_y by {
            }
            lemma_content_box_inside(v, tolerance, b);
        }
        Some(b)
    } else {
        None
    }
}

/// Trims an image to its content box, with the given tolerance for what
/// counts as white. An image without content is returned unchanged.
pub fn crop_with_tolerance(img: &RasterImage, tolerance: u8) -> (res: RasterImage)
    ensures
        res@ == cropped(img@, tolerance),
{
    let width = img.width();
    let height = img.height();
    match content_bounds(img, tolerance) {
        Some(b) => {
            proof {
                lemma_content_box_inside(img@, tolerance, b);
            }
            crop_imm(img, b.min_x, b.min_y, b.max_x - b.min_x + 1, b.max_y - b.min_y + 1)
        },
        None => img.clone(),
    }
}

/// Trims an image to its content box, with the default tolerance.
pub fn crop_to_content(img: &RasterImage) -> (res: RasterImage)
    ensures
        res@ == cropped(img@, DEFAULT_TOLERANCE),
{
    crop_with_tolerance(img, DEFAULT_TOLERANCE)
}

/// A pixel whose channels all sit exactly `tolerance` below 255 is
/// background; one with a channel a single step lower is content.
pub proof fn lemma_tolerance_boundary(p: Pixel, tolerance: u8)
    ensures
        p.r == 255 - tolerance && p.g == 255 - tolerance && p.b == 255 - tolerance && p.a == 255
            - tolerance ==> is_background(p, tolerance),
        p.r == 255 - tolerance - 1 || p.g == 255 - tolerance - 1 || p.b == 255 - tolerance - 1
            || p.a == 255 - tolerance - 1 ==> !is_background(p, tolerance),
{
}

/// An image made of background alone is left as it is: same dimensions,
/// same pixels.
pub proof fn lemma_crop_blank(v: ImageView, tolerance: u8)
    requires
        forall|x: int, y: int| v.contains(x, y) ==> is_background(#[trigger] v.pixel(x, y), tolerance),
    ensures
        cropped(v, tolerance) == v,
{
}

/// Where the content of an image is exactly one rectangle, cropping returns
/// that rectangle: its width, its height and its pixels.
pub proof fn lemma_crop_exact(v: ImageView, tolerance: u8, x0: int, y0: int, w: int, h: int)
    requires
        v.wf(),
        0 <= x0,
        0 <= y0,
        0 < w,
        0 < h,
        x0 + w <= v.width,
        y0 + h <= v.height,
        forall|x: int, y: int|
            v.contains(x, y) ==> (#[trigger] is_content(v, tolerance, x, y) <==> x0 <= x < x0 + w
                && y0 <= y < y0 + h),
    ensures
        cropped(v, tolerance).width == w,
        cropped(v, tolerance).height == h,
        cropped(v, tolerance) == v.window(x0, y0, w as nat, h as nat),
{
    let b = ContentBox {
        min_x: x0 as u32,
        min_y: y0 as u32,
        max_x: (x0 + w - 1) as u32,
        max_y: (y0 + h - 1) as u32,
    };
    assert(is_content(v, tolerance, x0, b.min_y as int));
    assert(is_content(v, tolerance, x0 + w - 1, b.max_y as int));
    assert forall|x: int, y: int| #[trigger] is_content(v, tolerance, x, y) implies b.min_x <= x
        <= b.max_x && b.min_y <= y <= b.max_y by {
    }
    lemma_content_box_inside(v, tolerance, b);
}

/// Cropping an image that is already cropped changes nothing.
pub proof fn lemma_crop_idempotent(v: ImageView, tolerance: u8)
    requires
        v.wf(),
    ensures
        cropped(cropped(v, tolerance), tolerance) == cropped(v, tolerance),
{
    if has_content(v, tolerance) {
        lemma_content_box_exists(v, tolerance);
        let b = content_box(v, tolerance);
        lemma_content_box_inside(v, tolerance, b);
        let c = cropped(v, tolerance);
        let whole = ContentBox {
            min_x: 0,
            min_y: 0,
            max_x: (b.max_x - b.min_x) as u32,
            max_y: (b.max_y - b.min_y) as u32,
        };
        let left = choose|y: int| is_content(v, tolerance, b.min_x as int, y);
        let right = choose|y: int| is_content(v, tolerance, b.max_x as int, y);
        let top = choose|x: int| is_content(v, tolerance, x, b.min_y as int);
        let bottom = choose|x: int| is_content(v, tolerance, x, b.max_y as int);
        assert(is_content(c, tolerance, whole.min_x as int, left - b.min_y));
        assert(is_content(c, tolerance, whole.max_x as int, right - b.min_y));
        assert(is_content(c, tolerance, top - b.min_x, whole.min_y as int));
        assert(is_content(c, tolerance, bottom - b.min_x, whole.max_y as int));
        lemma_content_box_inside(c, tolerance, whole);
        assert(c.window(0, 0, whole.spec_width(), whole.spec_height()).rows =~~= c.rows);
    }
}

} // verus!
