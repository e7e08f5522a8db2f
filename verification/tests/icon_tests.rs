use lama_blanket::tray::{icon_file_names, icon_from_decoded, load_icon};

/// A 2 by 1 RGBA PNG: pixel (10, 20, 30, 255) then pixel (200, 100, 50, 128).
const TWO_PIXEL_PNG: [u8; 74] = [
    137, 80, 78, 71, 13, 10, 26, 10, 0, 0, 0, 13, 73, 72, 68, 82, 0, 0, 0, 2, 0, 0, 0, 1, 8, 6, 0,
    0, 0, 244, 34, 127, 138, 0, 0, 0, 17, 73, 68, 65, 84, 120, 156, 99, 224, 18, 145, 251, 127,
    34, 197, 168, 1, 0, 11, 196, 3, 26, 138, 53, 77, 236, 0, 0, 0, 0, 73, 69, 78, 68, 174, 66, 96,
    130,
];

fn is_builtin(width: u32, height: u32, rgba: &[u8]) -> bool {
    width == 32 && height == 32 && rgba.len() == 32 * 32 * 4 && rgba[0..4] == [255, 255, 255, 255]
}

#[test]
fn icon_files_are_looked_for_in_order() {
    assert_eq!(
        icon_file_names(),
        vec!["icon.png", "icon.webp", "icon.jpg", "icon.jpeg"]
    );
}

#[test]
fn png_icon_is_decoded_to_rgba() {
    let icon = load_icon(vec![Some(TWO_PIXEL_PNG.to_vec()), None, None, None]);
    assert_eq!((icon.width, icon.height), (2, 1));
    assert_eq!(icon.rgba, vec![10, 20, 30, 255, 200, 100, 50, 128]);
}

#[test]
fn unreadable_icon_files_give_the_builtin_icon() {
    let icon = load_icon(vec![Some(vec![1, 2, 3]), None, Some(b"not a jpeg".to_vec()), None]);
    assert!(is_builtin(icon.width, icon.height, &icon.rgba));
    let none = load_icon(Vec::new());
    assert!(is_builtin(none.width, none.height, &none.rgba));
}

#[test]
fn icon_files_are_decoded_in_the_format_their_name_gives() {
    // The PNG bytes under the WebP name do not decode as WebP; the fifth
    // entry is past the names looked for.
    let icon = load_icon(vec![
        Some(vec![0; 8]),
        Some(TWO_PIXEL_PNG.to_vec()),
        None,
        None,
        Some(TWO_PIXEL_PNG.to_vec()),
    ]);
    assert!(is_builtin(icon.width, icon.height, &icon.rgba));
}

#[test]
fn first_decoded_image_wins() {
    let icon = icon_from_decoded(vec![None, Some((1, 1, vec![1, 2, 3, 4])), Some((2, 2, vec![0; 16]))]);
    assert_eq!((icon.width, icon.height), (1, 1));
    assert_eq!(icon.rgba, vec![1, 2, 3, 4]);
    let fallback = icon_from_decoded(vec![None, None]);
    assert!(is_builtin(fallback.width, fallback.height, &fallback.rgba));
}
