//! Page pairing: rendering the pages of two revisions and matching them by
//! index.
//!
//! The new revision decides how many pairs there are. A page of the old
//! revision beyond the end of the new one is left out; a page of the new
//! revision beyond the end of the old one is paired with nothing.

use crate::crop::{crop_with_tolerance, cropped};
use crate::error::{Document, ErrorKind, PdfError};
use crate::raster::{ImageView, RasterImage};
use vstd::prelude::*;

verus! {

/// The images of one page index: the old revision's page, if it has one, and
/// the new revision's.
pub type PagePair = (Option<RasterImage>, Option<RasterImage>);

/// The mathematical value of a pair: the grid of each image that is there.
pub type PairView = (Option<ImageView>, Option<ImageView>);

/// The grid of an image that may be absent.
pub open spec fn image_view(image: Option<RasterImage>) -> Option<ImageView> {
    match image {
        Some(i) => Some(i@),
        None => None,
    }
}

/// The mathematical value of a pair.
pub open spec fn pair_view(pair: PagePair) -> PairView {
    (image_view(pair.0), image_view(pair.1))
}

/// The mathematical values of a sequence of pairs.
pub open spec fn pairs_view(pairs: Seq<PagePair>) -> Seq<PairView> {
    Seq::new(pairs.len(), |i: int| pair_view(pairs[i]))
}

/// The grids of a sequence of images.
pub open spec fn images_view(images: Seq<RasterImage>) -> Seq<ImageView> {
    Seq::new(images.len(), |i: int| images[i]@)
}

/// `e` reports that `document`'s page `index` could not be rendered, for the
/// reason `detail`.
pub open spec fn is_render_error(e: PdfError, document: Document, index: usize, detail: Seq<char>) -> bool {
    &&& e.kind == ErrorKind::Render
    &&& e.document == Some(document)
    &&& e.page == Some(index)
    &&& e.detail@ == detail
}

/// Turns what the renderer returned for one page into the page's image: a
/// rendered page is cropped to its content, a failure becomes a render error
/// that names the document and the page.
pub fn page_image(
    document: Document,
    index: usize,
    rendered: Result<RasterImage, String>,
    tolerance: u8,
) -> (res: Result<RasterImage, PdfError>)
    ensures
        match rendered {
            Ok(raw) => res is Ok && res->Ok_0@ == cropped(raw@, tolerance),
            Err(detail) => res is Err && is_render_error(res->Err_0, document, index, detail@),
        },
{
    match rendered {
        Ok(raw) => Ok(crop_with_tolerance(&raw, tolerance)),
        Err(detail) => Err(PdfError::render(document, index, detail)),
    }
}

/// `image` is what `render` can return for page `index`, cropped.
pub open spec fn is_page_of<F: Fn(usize) -> Result<RasterImage, String>>(
    render: F,
    index: usize,
    tolerance: u8,
    image: RasterImage,
) -> bool {
    exists|raw: RasterImage| #[trigger]
        render.ensures((index,), Ok(raw)) && image@ == cropped(raw@, tolerance)
}

/// `pair` is the pair of page `index`: the new page is there, and the old
/// page is there exactly when the old revision has a page of that index.
pub open spec fn is_pair_of<FO: Fn(usize) -> Result<RasterImage, String>, FN: Fn(usize) -> Result<
    RasterImage,
    String,
>>(old_page_count: usize, render_old: FO, render_new: FN, tolerance: u8, index: usize, pair: PagePair) -> bool {
    &&& pair.1 is Some
    &&& is_page_of(render_new, index, tolerance, pair.1->0)
    &&& pair.0 is Some <==> index < old_page_count
    &&& pair.0 is Some ==> is_page_of(render_old, index, tolerance, pair.0->0)
}

/// `pairs` holds the pairs of the first `pairs.len()` page indices.
pub open spec fn are_pairs_of<FO: Fn(usize) -> Result<RasterImage, String>, FN: Fn(usize) -> Result<
    RasterImage,
    String,
>>(old_page_count: usize, render_old: FO, render_new: FN, tolerance: u8, pairs: Seq<PagePair>) -> bool {
    forall|i: int|
        0 <= i < pairs.len() ==> is_pair_of(
            old_page_count,
            render_old,
            render_new,
            tolerance,
            i as usize,
            #[trigger] pairs[i],
        )
}

/// `e` is the render error of page `index`, on which a renderer can fail
/// with `detail`: the new revision's renderer, or the old revision's on a
/// page that the old revision has and after the new page was rendered.
pub open spec fn is_failure_at<FO: Fn(usize) -> Result<RasterImage, String>, FN: Fn(usize) -> Result<
    RasterImage,
    String,
>>(
    old_page_count: usize,
    render_old: FO,
    render_new: FN,
    tolerance: u8,
    index: usize,
    detail: String,
    e: PdfError,
) -> bool {
    ||| render_new.ensures((index,), Err(detail)) && is_render_error(
        e,
        Document::New,
        index,
        detail@,
    )
    ||| index < old_page_count && (exists|new_page: RasterImage|
        is_page_of(render_new, index, tolerance, new_page)) && render_old.ensures(
        (index,),
        Err(detail),
    ) && is_render_error(e, Document::Old, index, detail@)
}

/// `e` is the render error of the first page on which the run fails: the
/// pairs of all pages before it, `built`, were made.
pub open spec fn is_first_failure<FO: Fn(usize) -> Result<RasterImage, String>, FN: Fn(
    usize,
) -> Result<RasterImage, String>>(
    old_page_count: usize,
    new_page_count: usize,
    render_old: FO,
    render_new: FN,
    tolerance: u8,
    built: Seq<PagePair>,
    detail: String,
    e: PdfError,
) -> bool {
    &&& built.len() < new_page_count
    &&& are_pairs_of(old_page_count, render_old, render_new, tolerance, built)
    &&& is_failure_at(
        old_page_count,
        render_old,
        render_new,
        tolerance,
        built.len() as usize,
        detail,
        e,
    )
}

/// `render` returns a page for every index below `count`, whatever else may
/// be open about what it returns.
pub open spec fn never_fails<F: Fn(usize) -> Result<RasterImage, String>>(count: usize, render: F) -> bool {
    forall|index: usize, rendered: Result<RasterImage, String>|
        index < count && #[trigger] render.ensures((index,), rendered) ==> rendered is Ok
}

/// Builds the page pairs of two revisions, in page order.
///
/// For each page index of the new revision, the new page is rendered first,
/// then the old page of the same index if the old revision has one. Every
/// rendered page is cropped to its content. The first renderer failure ends
/// the run with a render error that names the document and the page.
pub fn create_images_from_pdf<FO, FN>(
    old_page_count: usize,
    new_page_count: usize,
    render_old: FO,
    render_new: FN,
    tolerance: u8,
) -> (res: Result<Vec<PagePair>, PdfError>) where
    FO: Fn(usize) -> Result<RasterImage, String>,
    FN: Fn(usize) -> Result<RasterImage, String>,

    requires
        forall|i: usize| i < new_page_count ==> render_new.requires((i,)),
        forall|i: usize| i < new_page_count && i < old_page_count ==> render_old.requires((i,)),
    ensures
        match res {
            Ok(pairs) => {
                &&& pairs@.len() == new_page_count
                &&& are_pairs_of(old_page_count, render_old, render_new, tolerance, pairs@)
            },
            Err(e) => exists|built: Seq<PagePair>, detail: String| #[trigger]
                is_first_failure(
                    old_page_count,
                    new_page_count,
                    render_old,
                    render_new,
                    tolerance,
                    built,
                    detail,
                    e,
                ),
        },
        new_page_count == 0 ==> res is Ok,
        never_fails(new_page_count, render_new) && never_fails(
            if old_page_count < new_page_count {
                old_page_count
            } else {
                new_page_count
            },
            render_old,
        ) ==> res is Ok,
{
    let mut pairs: Vec<PagePair> = Vec::new();
    let mut index: usize = 0;
    while index < new_page_count
        invariant
            index <= new_page_count,
            pairs@.len() == index,
            forall|i: usize| i < new_page_count ==> render_new.requires((i,)),
            forall|i: usize| i < new_page_count && i < old_page_count ==> render_old.requires((i,)),
            are_pairs_of(old_page_count, render_old, render_new, tolerance, pairs@),
        decreases new_page_count - index,
    {
        let new_rendered = render_new(index);
        let ghost new_result = new_rendered;
        let new_image = match page_image(Document::New, index, new_rendered, tolerance) {
            Ok(image) => image,
            Err(e) => {
                assert(is_first_failure(
                    old_page_count,
                    new_page_count,
                    render_old,
                    render_new,
                    tolerance,
                    pairs@,
                    new_result->Err_0,
                    e,
                ));
                return Err(e);
            },
        };
        assert(is_page_of(render_new, index, tolerance, new_image)) by {
            assert(render_new.ensures((index,), Ok::<RasterImage, String>(new_result->Ok_0)));
        }
        let old_image = if index < old_page_count {
            let old_rendered = render_old(index);
            let ghost old_result = old_rendered;
            match page_image(Document::Old, index, old_rendered, tolerance) {
                Ok(image) => {
                    assert(render_old.ensures((index,), Ok::<RasterImage, String>(old_result->Ok_0)));
                    Some(image)
                },
                Err(e) => {
                    assert(is_first_failure(
                        old_page_count,
                        new_page_count,
                        render_old,
                        render_new,
                        tolerance,
                        pairs@,
                        old_result->Err_0,
                        e,
                    ));
                    return Err(e);
                },
            }
        } else {
            None
        };
        pairs.push((old_image, Some(new_image)));
        index = index + 1;
    }
    Ok(pairs)
}

} // verus!
