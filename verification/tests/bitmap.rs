use glyph_atlas::bitmap::{normalize, strongest, PixelBuffer};
use glyph_atlas::error::AtlasError;

#[test]
fn rgb_gains_the_strongest_channel_as_alpha() {
    let out = normalize(PixelBuffer::Rgb(vec![10, 20, 30, 0, 0, 0]));
    assert_eq!(out, Ok(vec![10, 20, 30, 30, 0, 0, 0, 0]));
}

#[test]
fn alpha_is_the_strongest_channel_wherever_it_stands() {
    let out = normalize(PixelBuffer::Rgb(vec![9, 2, 3, 1, 8, 2, 1, 2, 7, 5, 5, 5, 255, 0, 255]));
    assert_eq!(
        out,
        Ok(vec![9, 2, 3, 9, 1, 8, 2, 8, 1, 2, 7, 7, 5, 5, 5, 5, 255, 0, 255, 255])
    );
}

#[test]
fn strongest_of_three_channels() {
    assert_eq!(strongest(1, 2, 3), 3);
    assert_eq!(strongest(3, 2, 1), 3);
    assert_eq!(strongest(1, 3, 2), 3);
    assert_eq!(strongest(0, 0, 0), 0);
    assert_eq!(strongest(255, 255, 254), 255);
}

#[test]
fn rgba_passes_through_unchanged() {
    let out = normalize(PixelBuffer::Rgba(vec![1, 2, 3, 4, 5, 6, 7, 8]));
    assert_eq!(out, Ok(vec![1, 2, 3, 4, 5, 6, 7, 8]));
    // No length is asked of a four-channel buffer.
    assert_eq!(normalize(PixelBuffer::Rgba(vec![1, 2, 3])), Ok(vec![1, 2, 3]));
}

#[test]
fn empty_buffers_stay_empty() {
    assert_eq!(normalize(PixelBuffer::Rgb(Vec::new())), Ok(Vec::new()));
    assert_eq!(normalize(PixelBuffer::Rgba(Vec::new())), Ok(Vec::new()));
}

#[test]
fn rgb_that_ends_inside_a_pixel_is_malformed() {
    assert_eq!(normalize(PixelBuffer::Rgb(vec![1])), Err(AtlasError::MalformedBitmap));
    assert_eq!(normalize(PixelBuffer::Rgb(vec![1, 2])), Err(AtlasError::MalformedBitmap));
    assert_eq!(normalize(PixelBuffer::Rgb(vec![1, 2, 3, 4])), Err(AtlasError::MalformedBitmap));
    assert_eq!(
        normalize(PixelBuffer::Rgb(vec![1, 2, 3, 4, 5])),
        Err(AtlasError::MalformedBitmap)
    );
}

#[test]
fn normalized_rgb_has_four_bytes_for_each_three() {
    let rgb: Vec<u8> = (0..=254).collect();
    let out = normalize(PixelBuffer::Rgb(rgb.clone())).unwrap();
    assert_eq!(out.len(), 85 * 4);
    for p in 0..85 {
        assert_eq!(&out[4 * p..4 * p + 3], &rgb[3 * p..3 * p + 3]);
        assert_eq!(out[4 * p + 3], rgb[3 * p + 2]);
    }
}
