//! Page-image normalisation, pairing and diff orchestration for comparing two
//! revisions of a paginated document.
//!
//! Rendered pages enter the library as [`RasterImage`] values. The library
//! trims each page to its content, pairs the pages of the two revisions by
//! index, decides for every pair whether an annotated difference image is
//! needed, and names the files the results are written to.

pub mod crop;
pub mod diff;
pub mod error;
pub mod input;
pub mod output;
pub mod pairing;
pub mod raster;
pub mod text;

pub use crop::{crop_to_content, crop_with_tolerance, DEFAULT_TOLERANCE};
pub use diff::diff_images;
pub use error::{Document, ErrorKind, PdfError};
pub use output::output_paths;
pub use pairing::{create_images_from_pdf, PagePair};
pub use raster::{ImageView, Pixel, RasterImage};
