use ray_tracer::ImageDataRGB;

#[test]
fn new_creates_black_image() {
    let image = ImageDataRGB::new(4, 3);
    assert_eq!(image.width, 4);
    assert_eq!(image.height, 3);
    assert_eq!(image.pixels.len(), 36);
    assert!(image.pixels.iter().all(|&b| b == 0));
}

#[test]
fn new_zero_sized_image_is_empty() {
    let image = ImageDataRGB::new(0, 7);
    assert_eq!(image.pixels.len(), 0);
    let image = ImageDataRGB::new(7, 0);
    assert_eq!(image.pixels.len(), 0);
}

#[test]
fn set_pixel_top_row_lands_first() {
    // y counts from the bottom, so the top row y = height - 1 occupies the
    // first bytes of the buffer.
    let mut image = ImageDataRGB::new(2, 2);
    image.set_pixel((0, 1), (10, 20, 30));
    assert_eq!(&image.pixels[0..3], &[10, 20, 30]);
    assert!(image.pixels[3..].iter().all(|&b| b == 0));
}

#[test]
fn set_pixel_bottom_left_lands_last_row() {
    let mut image = ImageDataRGB::new(2, 2);
    image.set_pixel((0, 0), (1, 2, 3));
    // Row y = 0 is stored last: offset 3 * ((2 - 1 - 0) * 2 + 0) = 6.
    assert_eq!(&image.pixels[6..9], &[1, 2, 3]);
    assert!(image.pixels[0..6].iter().all(|&b| b == 0));
    assert!(image.pixels[9..].iter().all(|&b| b == 0));
}

#[test]
fn set_pixel_exact_offset() {
    let mut image = ImageDataRGB::new(3, 2);
    image.set_pixel((2, 0), (9, 8, 7));
    // offset 3 * ((2 - 1 - 0) * 3 + 2) = 15.
    assert_eq!(&image.pixels[15..18], &[9, 8, 7]);
    assert_eq!(image.pixels.iter().filter(|&&b| b != 0).count(), 3);
}

#[test]
fn set_pixel_out_of_range_is_a_no_op() {
    let mut image = ImageDataRGB::new(2, 2);
    image.set_pixel((2, 0), (5, 5, 5));
    image.set_pixel((0, 2), (5, 5, 5));
    image.set_pixel((u32::MAX, u32::MAX), (5, 5, 5));
    assert!(image.pixels.iter().all(|&b| b == 0));
}

#[test]
fn set_pixel_overwrites_only_its_own_bytes() {
    let mut image = ImageDataRGB::new(2, 1);
    image.set_pixel((0, 0), (1, 1, 1));
    image.set_pixel((1, 0), (2, 2, 2));
    image.set_pixel((0, 0), (3, 4, 5));
    assert_eq!(&image.pixels[..], &[3, 4, 5, 2, 2, 2]);
}
