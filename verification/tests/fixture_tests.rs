use texture_array_probe::fixture::create_texture_data;
use texture_array_probe::pixel::bytes_match;
use texture_array_probe::pixel::Rgba;

#[test]
fn fixture_repeats_pixel_row_major() {
    let data = create_texture_data(2, 3, &[1, 2, 3, 4]);
    assert_eq!(data, vec![1, 2, 3, 4, 1, 2, 3, 4, 1, 2, 3, 4, 1, 2, 3, 4, 1, 2, 3, 4, 1, 2, 3, 4]);
}

#[test]
fn fixture_single_pixel() {
    let data = create_texture_data(1, 1, &[9, 8, 7, 6]);
    assert_eq!(data, vec![9, 8, 7, 6]);
}

#[test]
fn fixture_zero_width_is_empty() {
    let data = create_texture_data(0, 7, &[1, 2, 3, 4]);
    assert!(data.is_empty());
}

#[test]
fn fixture_zero_height_is_empty() {
    let data = create_texture_data(7, 0, &[1, 2, 3, 4]);
    assert!(data.is_empty());
}

#[test]
fn fixture_has_no_padding() {
    let data = create_texture_data(32, 32, &[255, 0, 0, 255]);
    assert_eq!(data.len(), 32 * 32 * 4);
    for (i, b) in data.iter().enumerate() {
        let expected = [255u8, 0, 0, 255][i % 4];
        assert_eq!(*b, expected);
    }
}

#[test]
fn pixel_to_bytes_is_memory_order() {
    let p = Rgba::new(1, 2, 3, 4);
    assert_eq!(p.to_bytes(), vec![1, 2, 3, 4]);
}

#[test]
fn bytes_match_accepts_exact_pixel() {
    assert!(bytes_match(&[255, 0, 0, 255], Rgba::new(255, 0, 0, 255)));
}

#[test]
fn bytes_match_rejects_wrong_color() {
    assert!(!bytes_match(&[0, 0, 0, 255], Rgba::new(255, 0, 0, 255)));
}

#[test]
fn bytes_match_rejects_wrong_length() {
    assert!(!bytes_match(&[255, 0, 0], Rgba::new(255, 0, 0, 255)));
    assert!(!bytes_match(&[255, 0, 0, 255, 0], Rgba::new(255, 0, 0, 255)));
}
