use image::imageops::{dither, overlay, BiLevel};
use image::GrayImage;
use nanohat_feed::bitmap::Bitmap;

fn gradient(width: u32, height: u32) -> Vec<u8> {
    (0..width * height).map(|i| ((i * 37 + i / width * 11) % 256) as u8).collect()
}

#[test]
fn dither_is_the_error_diffusion_of_the_image_crate() {
    for (width, height) in [(2, 1), (2, 8), (3, 3), (16, 16), (128, 8), (128, 64)] {
        let pixels = gradient(width, height);
        let mut expected = GrayImage::from_raw(width, height, pixels.clone()).unwrap();
        dither(&mut expected, &BiLevel);
        let ours = Bitmap::from_raw(width, height, pixels).unwrap().dither();
        assert_eq!((ours.width(), ours.height()), (width, height));
        assert_eq!(ours.pixels(), expected.as_raw());
        assert!(ours.pixels().iter().all(|p| *p == 0 || *p == 255));
    }
}

#[test]
fn dither_differs_from_a_plain_cut_at_mid_grey() {
    // 100 is below the middle, yet the errors add up to white pixels
    let flat = Bitmap::from_raw(8, 8, vec![100; 64]).unwrap().dither();
    assert!(flat.pixels().iter().any(|p| *p == 255));
    assert!(flat.pixels().iter().any(|p| *p == 0));
}

#[test]
fn dither_takes_rasters_without_room_for_diffusion() {
    let column = Bitmap::from_raw(1, 3, vec![127, 128, 255]).unwrap().dither();
    assert_eq!(column.pixels(), &vec![0, 255, 255]);
    let no_rows = Bitmap::new(5, 0).dither();
    assert_eq!((no_rows.width(), no_rows.height()), (5, 0));
    let no_columns = Bitmap::new(0, 5).dither();
    assert!(no_columns.pixels().is_empty());
}

#[test]
fn a_dithered_raster_stays_as_it_is() {
    let once = Bitmap::from_raw(16, 16, gradient(16, 16)).unwrap().dither();
    assert_eq!(once.dither().pixels(), once.pixels());
}

#[test]
fn invert_is_the_inversion_of_the_image_crate() {
    let pixels = gradient(7, 5);
    let mut expected = GrayImage::from_raw(7, 5, pixels.clone()).unwrap();
    image::imageops::invert(&mut expected);
    let ours = Bitmap::from_raw(7, 5, pixels).unwrap().invert();
    assert_eq!(ours.pixels(), expected.as_raw());
    assert_eq!(ours.invert().pixels(), &gradient(7, 5));
}

#[test]
fn overlay_is_the_overlay_of_the_image_crate() {
    let places = [(0, 0), (3, 2), (9, 0), (0, 5), (10, 6), (11, 7), (200, 1), (1, 200)];
    for (x, y) in places {
        let mut expected = GrayImage::from_raw(10, 6, gradient(10, 6)).unwrap();
        let top = GrayImage::from_raw(4, 3, vec![9; 12]).unwrap();
        overlay(&mut expected, &top, x, y);
        let mut ours = Bitmap::from_raw(10, 6, gradient(10, 6)).unwrap();
        ours.overlay(&Bitmap::from_raw(4, 3, vec![9; 12]).unwrap(), x, y);
        assert_eq!(ours.pixels(), expected.as_raw());
    }
}

#[test]
fn overlay_far_outside_changes_nothing() {
    let mut canvas = Bitmap::from_raw(3, 2, vec![1, 2, 3, 4, 5, 6]).unwrap();
    let patch = Bitmap::from_raw(2, 2, vec![9; 4]).unwrap();
    canvas.overlay(&patch, u32::MAX, 0);
    canvas.overlay(&patch, 0, u32::MAX);
    canvas.overlay(&patch, u32::MAX, u32::MAX);
    assert_eq!(canvas.pixels(), &vec![1, 2, 3, 4, 5, 6]);
    canvas.overlay(&Bitmap::new(0, 0), 1, 1);
    assert_eq!(canvas.pixels(), &vec![1, 2, 3, 4, 5, 6]);
}

#[test]
fn overlay_keeps_the_rows_of_the_patch_apart() {
    let mut canvas = Bitmap::new(3, 3);
    let patch = Bitmap::from_raw(2, 2, vec![1, 2, 3, 4]).unwrap();
    canvas.overlay(&patch, 0, 1);
    assert_eq!(canvas.pixels(), &vec![0, 0, 0, 1, 2, 0, 3, 4, 0]);
    assert_eq!(canvas.get_pixel(1, 2), 4);
    assert_eq!(canvas.get_pixel(0, 1), 1);
}
