use displaylight::border_detection::find_borders;
use displaylight::interface::RGB;
use displaylight::raster_image::RasterImage;

#[test]
fn test_fully_white() {
    let img = RasterImage::filled(100, 100, RGB::white());
    let b = find_borders(&img, 5, false).expect("Only rectangular is false.");

    assert_eq!(b.x_min, 0);
    assert_eq!(b.y_min, 0);
    assert_eq!(b.x_max, 99);
    assert_eq!(b.y_max, 99);
}

#[test]
fn test_free_floating_rect() {
    let mut img = RasterImage::filled(100, 100, RGB { r: 0, g: 0, b: 0 });
    img.fill_rectangle(30, 80, 20, 70, RGB::yellow());
    let b = find_borders(&img, 10, false).expect("Only rectangular is false.");

    assert_eq!(b.x_min, 30); // last index that is black
    assert_eq!(b.y_min, 20); // last index that is black.
    assert_eq!(b.x_max, 79); // last index that is not black.
    assert_eq!(b.y_max, 69); // last index that is not black.
}

#[test]
fn test_horizontal_borders() {
    let mut img = RasterImage::filled(100, 100, RGB { r: 0, g: 0, b: 0 });
    img.fill_rectangle(0, 100, 20, 70, RGB::yellow());
    let b = find_borders(&img, 10, false).expect("Only rectangular is false.");

    assert_eq!(b.x_min, 0); // last index that is black
    assert_eq!(b.y_min, 20); // last index that is black.
    assert_eq!(b.x_max, 99); // last index that is not black.
    assert_eq!(b.y_max, 69); // last index that is not black.
}

#[test]
fn test_vertical_borders() {
    let mut img = RasterImage::filled(100, 100, RGB { r: 0, g: 0, b: 0 });
    img.fill_rectangle(30, 80, 0, 100, RGB::yellow());
    let b = find_borders(&img, 10, false).expect("Only rectangular is false.");

    assert_eq!(b.x_min, 30); // last index that is black
    assert_eq!(b.y_min, 0); // last index that is black.
    assert_eq!(b.x_max, 79); // last index that is not black.
    assert_eq!(b.y_max, 99); // last index that is not black.
}

#[test]
fn test_black() {
    let img = RasterImage::filled(1920, 1080, RGB { r: 0, g: 0, b: 0 });
    let b = find_borders(&img, 10, false).expect("Only rectangular is false.");
    assert_eq!(b.x_min, 959); // last index that is black
    assert_eq!(b.y_min, 539); // last index that is black.
    assert_eq!(b.x_max, 959); // last index that is not black.
    assert_eq!(b.y_max, 539); // last index that is not black.
}

#[test]
fn test_only_rectangular() {
    let mut img = RasterImage::filled(100, 100, RGB { r: 0, g: 0, b: 0 });
    img.fill_rectangle(20, 60, 20, 60, RGB::yellow());
    img.fill_rectangle(40, 80, 40, 80, RGB::yellow());
    let b = find_borders(&img, 10, true);
    assert!(b.is_none());

    let mut img = RasterImage::filled(100, 100, RGB { r: 0, g: 0, b: 0 });
    img.fill_rectangle(10, 40, 30, 60, RGB::yellow());
    img.fill_rectangle(30, 70, 20, 30, RGB::yellow());
    img.fill_rectangle(60, 90, 30, 60, RGB::yellow());
    let b = find_borders(&img, 10, true);
    assert!(b.is_none());
}
