use image::{Rgb, RgbImage};
use vhdl_doc::symbol::symbol::make_symbol;

#[test]
fn symbol_is_a_square_of_rgb_pixels() {
    assert_eq!(make_symbol().len(), 32 * 32 * 3);
}

#[test]
fn symbol_is_the_cross_drawn_pixel_by_pixel() {
    let mut img = RgbImage::new(32, 32);
    for x in 15..=17 {
        for y in 8..24 {
            img.put_pixel(x, y, Rgb([255, 0, 0]));
            img.put_pixel(y, x, Rgb([255, 0, 0]));
        }
    }
    assert_eq!(make_symbol(), img.into_raw());
}

#[test]
fn symbol_pixels_by_place() {
    let samples = make_symbol();
    let pixel = |x: usize, y: usize| {
        let at = (y * 32 + x) * 3;
        (samples[at], samples[at + 1], samples[at + 2])
    };
    assert_eq!(pixel(0, 0), (0, 0, 0));
    assert_eq!(pixel(31, 31), (0, 0, 0));
    assert_eq!(pixel(16, 16), (255, 0, 0));
    assert_eq!(pixel(15, 8), (255, 0, 0));
    assert_eq!(pixel(17, 23), (255, 0, 0));
    assert_eq!(pixel(15, 7), (0, 0, 0));
    assert_eq!(pixel(17, 24), (0, 0, 0));
    assert_eq!(pixel(8, 15), (255, 0, 0));
    assert_eq!(pixel(23, 17), (255, 0, 0));
    assert_eq!(pixel(7, 15), (0, 0, 0));
    assert_eq!(pixel(24, 17), (0, 0, 0));
    assert_eq!(pixel(14, 14), (0, 0, 0));
    assert_eq!(pixel(18, 18), (0, 0, 0));
    assert_eq!(pixel(14, 16), (255, 0, 0));
    assert_eq!(pixel(16, 14), (255, 0, 0));
}

#[test]
fn symbol_makes_an_image() {
    let img = RgbImage::from_raw(32, 32, make_symbol()).unwrap();
    assert_eq!(*img.get_pixel(16, 9), Rgb([255, 0, 0]));
    assert_eq!(*img.get_pixel(9, 16), Rgb([255, 0, 0]));
    assert_eq!(*img.get_pixel(9, 9), Rgb([0, 0, 0]));
    let red = img.pixels().filter(|p| **p == Rgb([255, 0, 0])).count();
    assert_eq!(red, 3 * 16 + 3 * 16 - 9);
}
