use pdf_diff::crop::{content_bounds, pixel_is_background, ContentBox};
use pdf_diff::{crop_to_content, crop_with_tolerance, Pixel, RasterImage, DEFAULT_TOLERANCE};

const WHITE: Pixel = Pixel { r: 255, g: 255, b: 255, a: 255 };
const GRAY: Pixel = Pixel { r: 100, g: 100, b: 100, a: 255 };

fn create_solid_color_image(width: u32, height: u32, color: Pixel) -> RasterImage {
    RasterImage::filled(width, height, color).expect("the image fits in memory")
}

fn create_test_image_with_content(
    width: u32,
    height: u32,
    content_x: u32,
    content_y: u32,
    content_width: u32,
    content_height: u32,
) -> RasterImage {
    let mut img = create_solid_color_image(width, height, WHITE);
    for y in content_y..(content_y + content_height).min(height) {
        for x in content_x..(content_x + content_width).min(width) {
            img = img.with_pixel(x, y, GRAY);
        }
    }
    img
}

fn dimensions(img: &RasterImage) -> (u32, u32) {
    (img.width(), img.height())
}

#[test]
fn test_crop_to_content_with_content() {
    let img = create_test_image_with_content(100, 100, 20, 30, 40, 25);
    let cropped = crop_to_content(&img);

    let (cropped_width, cropped_height) = dimensions(&cropped);
    assert_eq!(cropped_width, 40, "Cropped width should match content width");
    assert_eq!(cropped_height, 25, "Cropped height should match content height");
}

#[test]
fn test_crop_to_content_all_white() {
    let img = create_solid_color_image(100, 100, WHITE);
    let cropped = crop_to_content(&img);

    let (original_width, original_height) = dimensions(&img);
    let (cropped_width, cropped_height) = dimensions(&cropped);

    assert_eq!(cropped_width, original_width);
    assert_eq!(cropped_height, original_height);
}

#[test]
fn test_crop_to_content_near_white() {
    let img = create_solid_color_image(50, 50, Pixel { r: 250, g: 250, b: 250, a: 255 });
    let cropped = crop_to_content(&img);

    let (original_width, original_height) = dimensions(&img);
    let (cropped_width, cropped_height) = dimensions(&cropped);

    assert_eq!(cropped_width, original_width);
    assert_eq!(cropped_height, original_height);
}

#[test]
fn test_crop_to_content_edge_content() {
    let img = create_test_image_with_content(50, 50, 0, 0, 50, 50);
    let cropped = crop_to_content(&img);

    let (cropped_width, cropped_height) = dimensions(&cropped);
    assert_eq!(cropped_width, 50);
    assert_eq!(cropped_height, 50);
}

#[test]
fn default_tolerance_is_ten() {
    assert_eq!(DEFAULT_TOLERANCE, 10);
}

#[test]
fn crop_keeps_the_pixels_of_the_content_box() {
    let mut img = create_solid_color_image(6, 5, WHITE);
    let red = Pixel { r: 200, g: 0, b: 0, a: 255 };
    let blue = Pixel { r: 0, g: 0, b: 200, a: 255 };
    img = img.with_pixel(2, 1, red);
    img = img.with_pixel(4, 3, blue);
    let cropped = crop_to_content(&img);

    assert_eq!(dimensions(&cropped), (3, 3));
    for y in 0..3 {
        for x in 0..3 {
            assert_eq!(cropped.get_pixel(x, y), img.get_pixel(x + 2, y + 1));
        }
    }
    assert_eq!(cropped.get_pixel(0, 0), red);
    assert_eq!(cropped.get_pixel(2, 2), blue);
    assert_eq!(cropped.get_pixel(1, 1), WHITE);
}

#[test]
fn crop_does_not_touch_its_argument() {
    let img = create_test_image_with_content(10, 10, 3, 4, 2, 2);
    let before = img.clone().into_raw();
    let _ = crop_to_content(&img);
    assert_eq!(img.into_raw(), before);
}

#[test]
fn crop_of_a_blank_image_keeps_every_pixel() {
    let img = create_solid_color_image(7, 3, Pixel { r: 246, g: 255, b: 250, a: 245 });
    let cropped = crop_to_content(&img);
    assert_eq!(dimensions(&cropped), (7, 3));
    assert_eq!(cropped.into_raw(), img.into_raw());
}

#[test]
fn crop_twice_is_crop_once() {
    let mut img = create_test_image_with_content(30, 20, 5, 6, 7, 8);
    img = img.with_pixel(25, 1, GRAY);
    let once = crop_to_content(&img);
    let twice = crop_to_content(&once);
    assert_eq!(dimensions(&once), (21, 13));
    assert_eq!(dimensions(&twice), dimensions(&once));
    assert_eq!(twice.into_raw(), once.into_raw());
}

#[test]
fn tolerance_boundary_is_245() {
    let at = Pixel { r: 245, g: 245, b: 245, a: 245 };
    let below = Pixel { r: 244, g: 244, b: 244, a: 244 };
    assert!(pixel_is_background(at, 10));
    assert!(!pixel_is_background(below, 10));
    assert!(!pixel_is_background(Pixel { r: 244, g: 255, b: 255, a: 255 }, 10));
    assert!(!pixel_is_background(Pixel { r: 255, g: 244, b: 255, a: 255 }, 10));
    assert!(!pixel_is_background(Pixel { r: 255, g: 255, b: 244, a: 255 }, 10));
    assert!(!pixel_is_background(Pixel { r: 255, g: 255, b: 255, a: 244 }, 10));

    let blank = create_solid_color_image(4, 4, at);
    assert_eq!(content_bounds(&blank, 10), None);
    let marked = blank.with_pixel(3, 0, below);
    let cropped = crop_to_content(&marked);
    assert_eq!(dimensions(&cropped), (1, 1));
    assert_eq!(cropped.get_pixel(0, 0), below);
}

#[test]
fn transparent_white_is_content() {
    let img = create_solid_color_image(3, 3, WHITE).with_pixel(1, 1, Pixel {
        r: 255,
        g: 255,
        b: 255,
        a: 0,
    });
    assert_eq!(
        content_bounds(&img, 10),
        Some(ContentBox { min_x: 1, min_y: 1, max_x: 1, max_y: 1 })
    );
}

#[test]
fn explicit_tolerance_is_used() {
    let img = create_solid_color_image(5, 5, WHITE).with_pixel(2, 3, Pixel {
        r: 250,
        g: 250,
        b: 250,
        a: 255,
    });
    assert_eq!(dimensions(&crop_with_tolerance(&img, 10)), (5, 5));
    assert_eq!(dimensions(&crop_with_tolerance(&img, 5)), (5, 5));
    assert_eq!(dimensions(&crop_with_tolerance(&img, 4)), (1, 1));
    assert_eq!(dimensions(&crop_with_tolerance(&img, 0)), (1, 1));
    let solid = create_solid_color_image(2, 2, Pixel { r: 0, g: 0, b: 0, a: 0 });
    assert_eq!(content_bounds(&solid, 255), None);
}

#[test]
fn content_bounds_of_scattered_content() {
    let mut img = create_solid_color_image(100, 80, WHITE);
    img = img.with_pixel(10, 70, GRAY);
    img = img.with_pixel(90, 5, GRAY);
    img = img.with_pixel(50, 40, GRAY);
    assert_eq!(
        content_bounds(&img, 10),
        Some(ContentBox { min_x: 10, min_y: 5, max_x: 90, max_y: 70 })
    );
    assert_eq!(dimensions(&crop_to_content(&img)), (81, 66));
}

#[test]
fn single_pixel_images() {
    let blank = create_solid_color_image(1, 1, WHITE);
    assert_eq!(dimensions(&crop_to_content(&blank)), (1, 1));
    let dark = create_solid_color_image(1, 1, GRAY);
    let cropped = crop_to_content(&dark);
    assert_eq!(dimensions(&cropped), (1, 1));
    assert_eq!(cropped.get_pixel(0, 0), GRAY);
}

#[test]
fn empty_images_stay_empty() {
    let empty = create_solid_color_image(0, 0, GRAY);
    assert_eq!(dimensions(&crop_to_content(&empty)), (0, 0));
    let flat = create_solid_color_image(5, 0, GRAY);
    assert_eq!(dimensions(&crop_to_content(&flat)), (5, 0));
}

#[test]
fn from_raw_wants_four_bytes_for_each_pixel() {
    assert!(RasterImage::from_raw(2, 2, vec![0; 16]).is_some());
    assert!(RasterImage::from_raw(2, 2, vec![0; 15]).is_none());
    assert!(RasterImage::from_raw(2, 2, vec![0; 17]).is_none());
    assert!(RasterImage::from_raw(0, 9, Vec::new()).is_some());
    assert!(RasterImage::from_raw(u32::MAX, u32::MAX, vec![0; 4]).is_none());
}

#[test]
fn raw_bytes_are_rows_of_rgba() {
    let bytes: Vec<u8> = (0..24).collect();
    let img = RasterImage::from_raw(3, 2, bytes.clone()).unwrap();
    assert_eq!(img.width(), 3);
    assert_eq!(img.height(), 2);
    assert_eq!(img.get_pixel(0, 0), Pixel { r: 0, g: 1, b: 2, a: 3 });
    assert_eq!(img.get_pixel(2, 0), Pixel { r: 8, g: 9, b: 10, a: 11 });
    assert_eq!(img.get_pixel(1, 1), Pixel { r: 16, g: 17, b: 18, a: 19 });
    let changed = img.clone().with_pixel(1, 1, GRAY);
    assert_eq!(changed.get_pixel(1, 1), GRAY);
    assert_eq!(changed.get_pixel(0, 1), img.get_pixel(0, 1));
    assert_eq!(changed.get_pixel(2, 1), img.get_pixel(2, 1));
    assert_eq!(img.into_raw(), bytes);
}

#[test]
fn filled_images_hold_one_pixel_everywhere() {
    let img = create_solid_color_image(3, 2, GRAY);
    assert_eq!(
        img.into_raw(),
        vec![
            100, 100, 100, 255, 100, 100, 100, 255, 100, 100, 100, 255, 100, 100, 100, 255, 100,
            100, 100, 255, 100, 100, 100, 255
        ]
    );
}
