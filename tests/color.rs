use art::color::hex_to_rgb;

#[test]
fn six_digit_hex_colors() {
    assert_eq!(hex_to_rgb("#ff0000"), Some((255, 0, 0)));
    assert_eq!(hex_to_rgb("#0a0B0c"), Some((10, 11, 12)));
    assert_eq!(hex_to_rgb("00ff00"), Some((0, 255, 0)));
}

#[test]
fn leading_hashes_and_tail_are_skipped() {
    assert_eq!(hex_to_rgb("##102030"), Some((16, 32, 48)));
    assert_eq!(hex_to_rgb("#102030ff"), Some((16, 32, 48)));
}

#[test]
fn plus_sign_pairs_read_one_digit() {
    assert_eq!(hex_to_rgb("#+f0000"), Some((15, 0, 0)));
}

#[test]
fn short_or_malformed_hex_colors_are_refused() {
    assert_eq!(hex_to_rgb("#111"), None);
    assert_eq!(hex_to_rgb(""), None);
    assert_eq!(hex_to_rgb("#zz0000"), None);
    assert_eq!(hex_to_rgb("#00-100"), None);
}
