use raytracer::camera::next_pass;
use raytracer::buffer::Buffer;
use raytracer::color::rgb_value;
use raytracer::image::{blit, encode_ppm, PpmImage, WindowImage};

#[test]
fn rgb_value_packs_channels() {
    assert_eq!(rgb_value(0, 0, 0), 0);
    assert_eq!(rgb_value(255, 255, 255), 0x00FF_FFFF);
    assert_eq!(rgb_value(0x12, 0x34, 0x56), 0x0012_3456);
    assert_eq!(rgb_value(1, 0, 0), 65536);
}

#[test]
fn buffer_new_fills_every_pixel() {
    let b = Buffer::new(4, 3, 7u32);
    assert_eq!(b.width(), 4);
    assert_eq!(b.height(), 3);
    assert_eq!(b.data.len(), 12);
    for i in 0..12 {
        assert_eq!(*b.at(i), 7);
    }
}

#[test]
fn buffer_empty_grid() {
    let b = Buffer::new(0, 5, 1u8);
    assert_eq!(b.data.len(), 0);
    assert_eq!(b.height(), 5);
}

#[test]
fn ppm_encoding_of_two_pixels() {
    let mut b = Buffer::new(2, 1, (0u8, 0u8, 0u8));
    b.data[0] = (255, 0, 7);
    b.data[1] = (10, 128, 99);
    let bytes = encode_ppm(&b);
    assert_eq!(String::from_utf8(bytes).unwrap(), "P3\n2 1\n255\n255 0 7\n10 128 99\n");
}

#[test]
fn ppm_encoding_of_empty_buffer() {
    let b = Buffer::new(0, 0, (0u8, 0u8, 0u8));
    assert_eq!(String::from_utf8(encode_ppm(&b)).unwrap(), "P3\n0 0\n255\n");
}

#[test]
fn ppm_encoding_large_dimensions() {
    let b = Buffer::new(400, 0, (1u8, 2u8, 3u8));
    assert_eq!(String::from_utf8(encode_ppm(&b)).unwrap(), "P3\n400 0\n255\n");
}

#[test]
fn ppm_image_keeps_name() {
    let image = PpmImage::new("image.ppm");
    assert_eq!(image.filename(), "image.ppm");
}

#[test]
fn window_image_keeps_name() {
    let w = WindowImage::new("render");
    assert_eq!(w.window_name(), "render");
}

#[test]
fn blit_same_size_copies_everything() {
    let mut source = Buffer::new(2, 2, 0u32);
    source.data = vec![1, 2, 3, 4];
    let mut target = vec![9u32; 4];
    blit(&mut target, 2, 2, &source);
    assert_eq!(target, vec![1, 2, 3, 4]);
}

#[test]
fn blit_into_larger_window_keeps_the_rest() {
    let mut source = Buffer::new(2, 1, 0u32);
    source.data = vec![5, 6];
    let mut target = vec![0u32; 6];
    blit(&mut target, 3, 2, &source);
    assert_eq!(target, vec![5, 6, 0, 0, 0, 0]);
}

#[test]
fn blit_into_smaller_window_crops() {
    let mut source = Buffer::new(3, 2, 0u32);
    source.data = vec![1, 2, 3, 4, 5, 6];
    let mut target = vec![0u32; 2];
    blit(&mut target, 2, 1, &source);
    assert_eq!(target, vec![1, 2]);
}

#[test]
fn next_pass_counts_up_to_the_limit() {
    assert_eq!(next_pass(0, Some(3), false), Some(1));
    assert_eq!(next_pass(2, Some(3), false), Some(3));
    assert_eq!(next_pass(3, Some(3), false), None);
    assert_eq!(next_pass(0, Some(0), false), None);
}

#[test]
fn next_pass_unbounded_and_cancelled() {
    assert_eq!(next_pass(41, None, false), Some(42));
    assert_eq!(next_pass(41, None, true), None);
    assert_eq!(next_pass(0, Some(10), true), None);
    assert_eq!(next_pass(u32::MAX, None, false), None);
}
