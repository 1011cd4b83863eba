use ragna::TextureData;
use ragna::texture_diff;

#[test]
fn equal_textures_diff_black() {
    let texture = [1u8, 2, 3, 255, 9, 9, 9, 255];
    let diff = texture_diff(&texture, &texture);
    assert_eq!(diff, vec![0, 0, 0, 255, 0, 0, 0, 255]);
}

#[test]
fn different_pixels_diff_white() {
    let actual = [1u8, 2, 3, 255, 9, 9, 9, 255];
    let expected = [1u8, 2, 3, 255, 8, 9, 9, 255];
    let diff = texture_diff(&actual, &expected);
    assert_eq!(diff, vec![0, 0, 0, 255, 255, 255, 255, 255]);
}

#[test]
fn diff_covers_shared_pixels_only() {
    let short = [1u8, 2, 3, 255];
    let long = [1u8, 2, 3, 255, 9, 9, 9, 255];
    let diff = texture_diff(&short, &long);
    assert_eq!(diff, vec![0, 0, 0, 255]);
}

#[test]
fn partial_trailing_pixels_compare_by_content() {
    let a = [1u8, 2, 3, 255, 7, 7];
    let b = [1u8, 2, 3, 255, 7, 7];
    assert_eq!(texture_diff(&a, &b), vec![0, 0, 0, 255, 0, 0, 0, 255]);
    let c = [1u8, 2, 3, 255, 7, 8];
    assert_eq!(texture_diff(&a, &c), vec![0, 0, 0, 255, 255, 255, 255, 255]);
    // a short trailing chunk never equals a full one
    let d = [1u8, 2, 3, 255, 7, 7, 0, 255];
    assert_eq!(texture_diff(&a, &d), vec![0, 0, 0, 255, 255, 255, 255, 255]);
}

#[test]
fn empty_textures_diff_empty() {
    let empty: [u8; 0] = [];
    assert_eq!(texture_diff(&empty, &empty), Vec::<u8>::new());
}

#[test]
fn texture_data_holds_buffer_and_size() {
    let data = TextureData { buffer: vec![0, 0, 0, 255], size: (1, 1) };
    assert_eq!(data.buffer.len(), 4);
    assert_eq!(data.size, (1, 1));
}
