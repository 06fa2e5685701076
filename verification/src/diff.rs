//! Diff orchestration: deciding, pair by pair, which images a comparison of
//! two revisions puts out, and in which order.
//!
//! Two collaborators do the pixel work and are handed in by the caller. The
//! first measures how much two images differ and answers with a ratio, as the
//! bit pattern of an IEEE 754 single precision number. The second draws an
//! annotated difference image, steered by a sensitivity that this module
//! passes through untouched.

use crate::error::{ErrorKind, PdfError};
use crate::pairing::{image_view, images_view, pair_view, pairs_view, PagePair, PairView};
use crate::raster::{ImageView, RasterImage};
use vstd::prelude::*;

verus! {

/// The bit pattern of positive infinity, the largest pattern that is
/// greater than zero.
pub const POSITIVE_INFINITY_BITS: u32 = 0x7F80_0000;

/// Whether the number with this bit pattern is greater than zero: its sign
/// bit is clear, it is not zero, and it is a number.
pub open spec fn ratio_is_positive(bits: u32) -> bool {
    0 < bits <= POSITIVE_INFINITY_BITS
}

/// Whether a difference ratio calls for a difference image. Any ratio above
/// zero does, however small; zero, a negative ratio and a ratio that is not
/// a number do not.
pub fn ratio_calls_for_diff(bits: u32) -> (res: bool)
    ensures
        res == ratio_is_positive(bits),
{
    0 < bits && bits <= POSITIVE_INFINITY_BITS
}

/// The images that one pair puts out. A pair of two pages puts out its
/// difference image, if it has one, and then the new page; a pair of one
/// page puts out that page; a pair of none puts out nothing.
pub open spec fn contribution(pair: PairView, diff: Option<ImageView>) -> Seq<ImageView> {
    match pair {
        (Some(old), Some(new)) => match diff {
            Some(d) => seq![d, new],
            None => seq![new],
        },
        (None, Some(new)) => seq![new],
        (Some(old), None) => seq![old],
        (None, None) => Seq::empty(),
    }
}

/// The images that a sequence of pairs puts out: the contributions of the
/// pairs, one after the other in the order of the pairs.
pub open spec fn outputs(pairs: Seq<PairView>, diffs: Seq<Option<ImageView>>) -> Seq<ImageView>
    decreases pairs.len(),
{
    if pairs.len() == 0 {
        Seq::empty()
    } else {
        outputs(pairs.drop_last(), diffs.drop_last()) + contribution(pairs.last(), diffs.last())
    }
}

/// Appends to `out` what one pair puts out, given the pair's difference
/// image where one was made.
pub fn push_pair_outputs(out: &mut Vec<RasterImage>, pair: &PagePair, diff: Option<RasterImage>)
    ensures
        images_view(final(out)@) == images_view(old(out)@) + contribution(
            pair_view(*pair),
            image_view(diff),
        ),
{
    let ghost before = out@;
    match (&pair.0, &pair.1) {
        (Some(_), Some(new)) => {
            match diff {
                Some(d) => {
                    out.push(d);
                },
                None => {},
            }
            out.push(new.clone());
        },
        (None, Some(new)) => {
            out.push(new.clone());
        },
        (Some(old), None) => {
            out.push(old.clone());
        },
        (None, None) => {},
    }
    assert(images_view(out@) =~= images_view(before) + contribution(
        pair_view(*pair),
        image_view(diff),
    ));
}

/// `e` reports that the difference image of pair `index` could not be made,
/// for the reason `detail`.
pub open spec fn is_diff_error(e: PdfError, index: usize, detail: Seq<char>) -> bool {
    &&& e.kind == ErrorKind::Diff
    &&& e.document.is_none()
    &&& e.page == Some(index)
    &&& e.detail@ == detail
}

/// Turns what the annotator returned for pair `index` into the pair's
/// difference image; a failure becomes a diff error that names the pair.
pub fn annotated_image(index: usize, annotated: Result<RasterImage, String>) -> (res: Result<
    RasterImage,
    PdfError,
>)
    ensures
        match annotated {
            Ok(image) => res == Ok::<RasterImage, PdfError>(image),
            Err(detail) => res is Err && is_diff_error(res->Err_0, index, detail@),
        },
{
    match annotated {
        Ok(image) => Ok(image),
        Err(detail) => Err(PdfError::diff(index, detail)),
    }
}

/// `diff` is a difference image that the collaborators can give the two
/// pages: none where the ratio they measure is not above zero, the annotated
/// image where it is.
pub open spec fn is_diff_of<S, R, A>(
    old: RasterImage,
    new: RasterImage,
    sensitivity: S,
    ratio: R,
    annotate: A,
    diff: Option<RasterImage>,
) -> bool where
    R: Fn(&RasterImage, &RasterImage) -> u32,
    A: Fn(&RasterImage, &RasterImage, S) -> Result<RasterImage, String>,
 {
    exists|bits: u32| #[trigger]
        ratio.ensures((&old, &new), bits) && (diff is Some <==> ratio_is_positive(bits)) && (diff is Some
            ==> annotate.ensures((&old, &new, sensitivity), Ok(diff->0)))
}

/// The annotator can fail on the two pages, with `detail`, after a ratio
/// above zero.
pub open spec fn is_diff_failure_of<S, R, A>(
    old: RasterImage,
    new: RasterImage,
    sensitivity: S,
    ratio: R,
    annotate: A,
    detail: String,
) -> bool where
    R: Fn(&RasterImage, &RasterImage) -> u32,
    A: Fn(&RasterImage, &RasterImage, S) -> Result<RasterImage, String>,
 {
    exists|bits: u32| #[trigger]
        ratio.ensures((&old, &new), bits) && ratio_is_positive(bits) && annotate.ensures(
            (&old, &new, sensitivity),
            Err(detail),
        )
}

/// Compares the two pages of pair `index`: measures their difference ratio
/// and, where it is above zero, has the difference image drawn.
pub fn compare_pair<S, R, A>(
    index: usize,
    old: &RasterImage,
    new: &RasterImage,
    sensitivity: S,
    ratio: &R,
    annotate: &A,
) -> (res: Result<Option<RasterImage>, PdfError>) where
    R: Fn(&RasterImage, &RasterImage) -> u32,
    A: Fn(&RasterImage, &RasterImage, S) -> Result<RasterImage, String>,

    requires
        ratio.requires((old, new)),
        annotate.requires((old, new, sensitivity)),
    ensures
        match res {
            Ok(diff) => is_diff_of(*old, *new, sensitivity, *ratio, *annotate, diff),
            Err(e) => exists|detail: String|
                is_diff_error(e, index, detail@) && #[trigger] is_diff_failure_of(
                    *old,
                    *new,
                    sensitivity,
                    *ratio,
                    *annotate,
                    detail,
                ),
        },
{
    let bits = ratio(old, new);
    if ratio_calls_for_diff(bits) {
        let annotated = annotate(old, new, sensitivity);
        let ghost outcome = annotated;
        match annotated_image(index, annotated) {
            Ok(image) => Ok(Some(image)),
            Err(e) => {
                assert(is_diff_failure_of(*old, *new, sensitivity, *ratio, *annotate, outcome->Err_0));
                Err(e)
            },
        }
    } else {
        Ok(None)
    }
}

/// A pair that holds both an old and a new page.
pub open spec fn has_both(pair: PagePair) -> bool {
    pair.0 is Some && pair.1 is Some
}

/// The grids of a sequence of difference images, each of which may be absent.
pub open spec fn diffs_view(diffs: Seq<Option<RasterImage>>) -> Seq<Option<ImageView>> {
    Seq::new(diffs.len(), |i: int| image_view(diffs[i]))
}

/// `diffs` holds, pair by pair, a difference image that the collaborators
/// can give the pair; a pair that lacks a page has none.
pub open spec fn are_diffs_of<S, R, A>(
    images: Seq<PagePair>,
    sensitivity: S,
    ratio: R,
    annotate: A,
    diffs: Seq<Option<RasterImage>>,
) -> bool where
    R: Fn(&RasterImage, &RasterImage) -> u32,
    A: Fn(&RasterImage, &RasterImage, S) -> Result<RasterImage, String>,
 {
    &&& diffs.len() == images.len()
    &&& forall|i: int|
        0 <= i < images.len() ==> if has_both(images[i]) {
            is_diff_of(images[i].0->0, images[i].1->0, sensitivity, ratio, annotate, #[trigger] diffs[i])
        } else {
            diffs[i] is None
        }
}

/// `e` is the diff error of the first pair on which the run fails: the
/// pairs before it have the difference images `diffs`, and on the pair after
/// them, which holds two pages, the annotator can fail with `detail`.
pub open spec fn is_first_diff_failure<S, R, A>(
    images: Seq<PagePair>,
    sensitivity: S,
    ratio: R,
    annotate: A,
    diffs: Seq<Option<RasterImage>>,
    detail: String,
    e: PdfError,
) -> bool where
    R: Fn(&RasterImage, &RasterImage) -> u32,
    A: Fn(&RasterImage, &RasterImage, S) -> Result<RasterImage, String>,
 {
    let at = diffs.len() as int;
    &&& at < images.len()
    &&& are_diffs_of(images.take(at), sensitivity, ratio, annotate, diffs)
    &&& has_both(images[at])
    &&& is_diff_error(e, at as usize, detail@)
    &&& is_diff_failure_of(images[at].0->0, images[at].1->0, sensitivity, ratio, annotate, detail)
}

/// Decides what a comparison puts out, pair by pair and in the order of the
/// pairs.
///
/// A pair of two pages is measured by `ratio`; where the ratio is above zero
/// `annotate` draws the pair's difference image, which is put out before the
/// new page. The run fails only where `annotate` fails, with a diff error
/// that names the pair.
pub fn diff_images<S, R, A>(images: Vec<PagePair>, sensitivity: S, ratio: R, annotate: A) -> (res:
    Result<Vec<RasterImage>, PdfError>) where
    S: Copy,
    R: Fn(&RasterImage, &RasterImage) -> u32,
    A: Fn(&RasterImage, &RasterImage, S) -> Result<RasterImage, String>,

    requires
        forall|i: int|
            0 <= i < images@.len() && has_both(#[trigger] images@[i]) ==> ratio.requires(
                (&images@[i].0->0, &images@[i].1->0),
            ) && annotate.requires((&images@[i].0->0, &images@[i].1->0, sensitivity)),
    ensures
        match res {
            Ok(out) => exists|diffs: Seq<Option<RasterImage>>| #[trigger]
                are_diffs_of(images@, sensitivity, ratio, annotate, diffs) && images_view(out@)
                    == outputs(pairs_view(images@), diffs_view(diffs)),
            Err(e) => exists|diffs: Seq<Option<RasterImage>>, detail: String| #[trigger]
                is_first_diff_failure(images@, sensitivity, ratio, annotate, diffs, detail, e),
        },
        (forall|i: int| 0 <= i < images@.len() ==> !has_both(#[trigger] images@[i])) ==> res is Ok,
        (forall|i: int, annotated: Result<RasterImage, String>|
            0 <= i < images@.len() && has_both(images@[i]) && #[trigger] annotate.ensures(
                (&images@[i].0->0, &images@[i].1->0, sensitivity),
                annotated,
            ) ==> annotated is Ok) ==> res is Ok,
{
    let mut out: Vec<RasterImage> = Vec::new();
    let ghost mut diffs: Seq<Option<RasterImage>> = Seq::empty();
    let mut index: usize = 0;
    while index < images.len()
        invariant
            index <= images@.len(),
            forall|i: int|
                0 <= i < images@.len() && has_both(#[trigger] images@[i]) ==> ratio.requires(
                    (&images@[i].0->0, &images@[i].1->0),
                ) && annotate.requires((&images@[i].0->0, &images@[i].1->0, sensitivity)),
            are_diffs_of(images@.take(index as int), sensitivity, ratio, annotate, diffs),
            images_view(out@) == outputs(pairs_view(images@.take(index as int)), diffs_view(diffs)),
        decreases images@.len() - index,
    {
        let pair = &images[index];
        let diff = match (&pair.0, &pair.1) {
            (Some(old), Some(new)) => {
                match compare_pair(index, old, new, sensitivity, &ratio, &annotate) {
                    Ok(diff) => diff,
                    Err(e) => {
                        proof {
                            let detail = choose|detail: String|
                                is_diff_error(e, index, detail@) && #[trigger] is_diff_failure_of(
                                    *old,
                                    *new,
                                    sensitivity,
                                    ratio,
                                    annotate,
                                    detail,
                                );
                            assert(is_first_diff_failure(
                                images@,
                                sensitivity,
                                ratio,
                                annotate,
                                diffs,
                                detail,
                                e,
                            ));
                        }
                        return Err(e);
                    },
                }
            },
            _ => None,
        };
        proof {
            let before = images@.take(index as int);
            let after = images@.take(index + 1);
            let grown = diffs.push(diff);
            assert(pairs_view(after).drop_last() =~= pairs_view(before));
            assert(diffs_view(grown).drop_last() =~= diffs_view(diffs));
            assert forall|i: int| 0 <= i < after.len() implies if has_both(after[i]) {
                is_diff_of(after[i].0->0, after[i].1->0, sensitivity, ratio, annotate, #[trigger] grown[i])
            } else {
                grown[i] is None
            } by {}
            diffs = grown;
        }
        push_pair_outputs(&mut out, pair, diff);
        index = index + 1;
    }
    assert(images@.take(index as int) =~= images@);
    Ok(out)
}

/// A pair of two pages whose ratio is not above zero, as the ratio zero of
/// two identical pages is not, puts out one image: the new page.
pub proof fn lemma_unchanged_pair_puts_out_one(
    old: ImageView,
    new: ImageView,
    bits: u32,
    diff: Option<ImageView>,
)
    requires
        !ratio_is_positive(bits),
        diff is Some <==> ratio_is_positive(bits),
    ensures
        !ratio_is_positive(0),
        contribution((Some(old), Some(new)), diff).len() == 1,
        contribution((Some(old), Some(new)), diff) == seq![new],
{
}

/// A pair of two pages whose ratio is above zero puts out two images: the
/// difference image first, then the new page.
pub proof fn lemma_changed_pair_puts_out_two(
    old: ImageView,
    new: ImageView,
    bits: u32,
    diff: Option<ImageView>,
)
    requires
        ratio_is_positive(bits),
        diff is Some <==> ratio_is_positive(bits),
    ensures
        contribution((Some(old), Some(new)), diff).len() == 2,
        contribution((Some(old), Some(new)), diff) == seq![diff->0, new],
{
}

/// What two runs of pairs put out one after the other is what the first run
/// puts out followed by what the second puts out: no image comes before an
/// image of an earlier pair.
pub proof fn lemma_outputs_in_order(
    first: Seq<PairView>,
    first_diffs: Seq<Option<ImageView>>,
    second: Seq<PairView>,
    second_diffs: Seq<Option<ImageView>>,
)
    requires
        first_diffs.len() == first.len(),
        second_diffs.len() == second.len(),
    ensures
        outputs(first + second, first_diffs + second_diffs) == outputs(first, first_diffs)
            + outputs(second, second_diffs),
    decreases second.len(),
{
    if second.len() > 0 {
        lemma_outputs_in_order(first, first_diffs, second.drop_last(), second_diffs.drop_last());
        assert((first + second).drop_last() =~= first + second.drop_last());
        assert((first_diffs + second_diffs).drop_last() =~= first_diffs + second_diffs.drop_last());
        assert(outputs(first + second, first_diffs + second_diffs) =~= outputs(first, first_diffs)
            + outputs(second, second_diffs));
    }
}

/// The image that pair `index` puts out at position `k` of its contribution
/// stands in the whole output after everything that the earlier pairs put
/// out.
pub proof fn lemma_output_position(
    pairs: Seq<PairView>,
    diffs: Seq<Option<ImageView>>,
    index: int,
    k: int,
)
    requires
        diffs.len() == pairs.len(),
        0 <= index < pairs.len(),
        0 <= k < contribution(pairs[index], diffs[index]).len(),
    ensures
        outputs(pairs.take(index), diffs.take(index)).len() + k < outputs(pairs, diffs).len(),
        outputs(pairs, diffs)[outputs(pairs.take(index), diffs.take(index)).len() + k]
            == contribution(pairs[index], diffs[index])[k],
{
    let head = pairs.take(index + 1);
    let head_diffs = diffs.take(index + 1);
    let tail = pairs.skip(index + 1);
    let tail_diffs = diffs.skip(index + 1);
    assert(head + tail =~= pairs);
    assert(head_diffs + tail_diffs =~= diffs);
    lemma_outputs_in_order(head, head_diffs, tail, tail_diffs);
    assert(head.drop_last() =~= pairs.take(index));
    assert(head_diffs.drop_last() =~= diffs.take(index));
}

} // verus!
