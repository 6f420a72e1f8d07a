use rdpweb::avc::contains_idr;
use rdpweb::pixels::{bgra_to_rgba, crop_rgba_tile};

#[test]
fn finds_idr_in_avc_access_unit() {
    let data = [0, 0, 0, 2, 0x67, 0, 0, 0, 0, 1, 0x65];
    assert!(contains_idr(&data));
}

#[test]
fn rejects_truncated_avc_access_unit() {
    let data = [0, 0, 0, 8, 0x65];
    assert!(!contains_idr(&data));
}

#[test]
fn other_units_are_no_key_frame() {
    assert!(!contains_idr(&[]));
    assert!(!contains_idr(&[0, 0, 0]));
    assert!(!contains_idr(&[0, 0, 0, 0, 0x65]));
    assert!(!contains_idr(&[0, 0, 0, 1, 0x41]));
    assert!(!contains_idr(&[0, 0, 0, 1, 0x41, 0xff, 0xff, 0xff, 0xff, 0x65]));
    assert!(contains_idr(&[0, 0, 0, 1, 0x41, 0, 0, 0, 1, 0x25]));
}

#[test]
fn long_units_are_skipped_as_a_whole() {
    let mut data = vec![0, 1, 0x11, 0x70, 0x41];
    data.resize(4 + 0x1_1170, 5);
    data.extend_from_slice(&[0, 0, 0, 1, 0x65]);
    assert!(contains_idr(&data));
    let last = data.len() - 1;
    data[last] = 0x61;
    assert!(!contains_idr(&data));
}

#[test]
fn converts_bgra_pixels_to_rgba() {
    let mut pixels = [1, 2, 3, 255, 4, 5, 6, 255];
    bgra_to_rgba(&mut pixels);
    assert_eq!(pixels, [3, 2, 1, 255, 6, 5, 4, 255]);
}

#[test]
fn exchanging_red_and_blue_twice_changes_nothing() {
    let mut pixels: Vec<u8> = (0..23).collect();
    bgra_to_rgba(&mut pixels);
    assert_eq!(&pixels[..4], &[2, 1, 0, 3]);
    assert_eq!(&pixels[20..], &[20, 21, 22]);
    bgra_to_rgba(&mut pixels);
    assert_eq!(pixels, (0..23).collect::<Vec<u8>>());
}

#[test]
fn crops_edge_progressive_tile() {
    let pixels = vec![7; 64 * 64 * 4];
    let cropped = crop_rgba_tile(&pixels, 3, 2);
    assert_eq!(cropped, vec![7; 3 * 2 * 4]);
}

#[test]
fn cropping_keeps_places() {
    let pixels: Vec<u8> = (0..64 * 64 * 4).map(|i: usize| (i / 4 % 251) as u8).collect();
    assert_eq!(crop_rgba_tile(&pixels, 64, 64), pixels);
    let cropped = crop_rgba_tile(&pixels, 5, 64);
    assert_eq!(cropped.len(), 5 * 64 * 4);
    for row in 0..64 {
        assert_eq!(&cropped[20 * row..20 * row + 20], &pixels[256 * row..256 * row + 20]);
    }
    assert_eq!(crop_rgba_tile(&pixels, 0, 9), Vec::<u8>::new());
    assert_eq!(crop_rgba_tile(&pixels, 9, 0), Vec::<u8>::new());
}

#[test]
fn only_whole_rows_are_cropped() {
    let pixels: Vec<u8> = vec![1; 256 + 255];
    assert_eq!(crop_rgba_tile(&pixels, 2, 2), vec![1; 8]);
    assert_eq!(crop_rgba_tile(&pixels[..10], 2, 2), Vec::<u8>::new());
}
