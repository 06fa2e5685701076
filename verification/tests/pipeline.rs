use pdf_diff::input::check_input_files;
use pdf_diff::output::output_path;
use pdf_diff::text::decimal;
use pdf_diff::{
    create_images_from_pdf, diff_images, output_paths, Document, ErrorKind, PdfError, Pixel,
    RasterImage, DEFAULT_TOLERANCE,
};

const WHITE: Pixel = Pixel { r: 255, g: 255, b: 255, a: 255 };
const INK: Pixel = Pixel { r: 20, g: 20, b: 20, a: 255 };
const MARK: Pixel = Pixel { r: 255, g: 0, b: 255, a: 255 };

fn page(ink_width: u32, ink_height: u32) -> RasterImage {
    let mut img = RasterImage::filled(40, 30, WHITE).expect("the page fits in memory");
    for y in 0..ink_height {
        for x in 0..ink_width {
            img = img.with_pixel(x + 3, y + 2, INK);
        }
    }
    img
}

fn render(pages: &[RasterImage], index: usize) -> Result<RasterImage, String> {
    match pages.get(index) {
        Some(page) => Ok(page.clone()),
        None => Err(format!("page {} is out of bounds", index)),
    }
}

fn difference_ratio(a: &RasterImage, b: &RasterImage) -> u32 {
    let same = a.clone().into_raw() == b.clone().into_raw()
        && a.width() == b.width()
        && a.height() == b.height();
    (if same { 0.0f32 } else { 0.25f32 }).to_bits()
}

fn mark(_: &RasterImage, b: &RasterImage, _: f32) -> Result<RasterImage, String> {
    Ok(RasterImage::filled(b.width(), b.height(), MARK).expect("the image fits in memory"))
}

#[test]
fn two_old_pages_against_three_new_pages_give_four_images() {
    let old_doc = vec![page(5, 5), page(6, 6)];
    let new_doc = vec![page(5, 5), page(7, 7), page(8, 8)];

    let pairs = create_images_from_pdf(
        old_doc.len(),
        new_doc.len(),
        |index| render(&old_doc, index),
        |index| render(&new_doc, index),
        DEFAULT_TOLERANCE,
    )
    .unwrap();
    assert_eq!(pairs.len(), 3);

    let images = diff_images(pairs, 0.12, difference_ratio, mark).unwrap();
    assert_eq!(images.len(), 1 + 2 + 1);
    let sizes: Vec<(u32, u32)> = images.iter().map(|i| (i.width(), i.height())).collect();
    assert_eq!(sizes, vec![(5, 5), (7, 7), (7, 7), (8, 8)]);
    assert_eq!(images[0].get_pixel(0, 0), INK);
    assert_eq!(images[1].get_pixel(0, 0), MARK);
    assert_eq!(images[2].get_pixel(0, 0), INK);
    assert_eq!(images[3].get_pixel(0, 0), INK);

    let paths = output_paths("output", images.len());
    assert_eq!(
        paths,
        vec![
            "output/diff_page_1.png",
            "output/diff_page_2.png",
            "output/diff_page_3.png",
            "output/diff_page_4.png",
        ]
    );
}

#[test]
fn output_paths_count_from_one() {
    assert!(output_paths("out", 0).is_empty());
    assert_eq!(output_paths("test_output", 2), vec![
        "test_output/diff_page_1.png",
        "test_output/diff_page_2.png"
    ]);
    assert_eq!(output_paths("test_output_new_dir/subdir", 1), vec![
        "test_output_new_dir/subdir/diff_page_1.png"
    ]);
    let many = output_paths("d", 120);
    assert_eq!(many[8], "d/diff_page_9.png");
    assert_eq!(many[9], "d/diff_page_10.png");
    assert_eq!(many[99], "d/diff_page_100.png");
    assert_eq!(many[119], "d/diff_page_120.png");
    for (index, path) in many.iter().enumerate() {
        assert_eq!(*path, format!("d/diff_page_{}.png", index + 1));
    }
}

#[test]
fn output_path_of_one_position() {
    assert_eq!(output_path("output", 0), "output/diff_page_1.png");
    assert_eq!(output_path("", 41), "/diff_page_42.png");
    assert_eq!(output_path("a/b", 999_999), "a/b/diff_page_1000000.png");
}

#[test]
fn decimal_numerals() {
    assert_eq!(decimal(0), "0");
    assert_eq!(decimal(7), "7");
    assert_eq!(decimal(10), "10");
    assert_eq!(decimal(1234567890), "1234567890");
    assert_eq!(decimal(u64::MAX), "18446744073709551615");
    for n in 0..2000u64 {
        assert_eq!(decimal(n), n.to_string());
    }
}

#[test]
fn messages_name_stage_document_and_page() {
    assert_eq!(
        PdfError::input(Document::Old, String::from("file does not exist: a.pdf")).message(),
        "input error, old document: file does not exist: a.pdf"
    );
    assert_eq!(
        PdfError::render(Document::New, 12, String::from("FormatError")).message(),
        "render error, new document, page 12: FormatError"
    );
    assert_eq!(PdfError::diff(0, String::from("x")).message(), "diff error, page 0: x");
    assert_eq!(PdfError::io(String::from("disk full")).message(), "output error: disk full");
    let bare = PdfError { kind: ErrorKind::Io, document: None, page: None, detail: String::new() };
    assert_eq!(bare.message(), "output error: ");
}

#[test]
fn error_constructors_fill_the_fields() {
    let e = PdfError::input(Document::New, String::from("d"));
    assert_eq!((e.kind, e.document, e.page), (ErrorKind::Input, Some(Document::New), None));
    let e = PdfError::render(Document::Old, 3, String::from("d"));
    assert_eq!((e.kind, e.document, e.page), (ErrorKind::Render, Some(Document::Old), Some(3)));
    let e = PdfError::diff(5, String::from("d"));
    assert_eq!((e.kind, e.document, e.page), (ErrorKind::Diff, None, Some(5)));
    let e = PdfError::io(String::from("d"));
    assert_eq!((e.kind, e.document, e.page), (ErrorKind::Io, None, None));
    assert_eq!(e.detail, "d");
}

#[test]
fn both_documents_must_exist() {
    assert!(check_input_files("old.pdf", true, "new.pdf", true).is_ok());

    let e = check_input_files("./nonexistent.pdf", false, "./samples/new.pdf", true).unwrap_err();
    assert_eq!(e.kind, ErrorKind::Input);
    assert_eq!(e.document, Some(Document::Old));
    assert_eq!(e.page, None);
    assert!(e.message().contains("does not exist"));
    assert_eq!(e.message(), "input error, old document: file does not exist: ./nonexistent.pdf");

    let e = check_input_files("old.pdf", true, "new.pdf", false).unwrap_err();
    assert_eq!(e.document, Some(Document::New));
    assert_eq!(e.message(), "input error, new document: file does not exist: new.pdf");

    let e = check_input_files("old.pdf", false, "new.pdf", false).unwrap_err();
    assert_eq!(e.document, Some(Document::Old));
}

#[test]
fn test_load_pdf_documents_nonexistent_file() {
    let old_path = "./nonexistent.pdf";
    let new_path = "./samples/new.pdf";

    let result = check_input_files(old_path, false, new_path, true);
    assert!(result.is_err(), "Should fail for nonexistent file");

    let error = result.err().unwrap();
    assert!(error.message().contains("does not exist"));
}
