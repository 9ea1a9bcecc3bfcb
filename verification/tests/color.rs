use mediachat_native::color::{color_splits_character, parse_color};
use mediachat_native::picture::Color;

fn rgb(r: u8, g: u8, b: u8) -> Option<Color> {
    Some(Color { r, g, b, a: 255 })
}

#[test]
fn six_digits_in_either_case() {
    assert_eq!(parse_color(Some("#ff8000")), rgb(255, 128, 0));
    assert_eq!(parse_color(Some("#Ff8A0b")), rgb(255, 138, 11));
    assert_eq!(parse_color(Some("#000000")), rgb(0, 0, 0));
}

#[test]
fn three_digits_are_doubled() {
    assert_eq!(parse_color(Some("#fa0")), rgb(255, 170, 0));
    assert_eq!(parse_color(Some("#fa0")), parse_color(Some("#ffaa00")));
    assert_eq!(parse_color(Some("123")), rgb(17, 34, 51));
}

#[test]
fn hashes_are_optional() {
    assert_eq!(parse_color(Some("ff8000")), rgb(255, 128, 0));
    assert_eq!(parse_color(Some("###ff8000")), rgb(255, 128, 0));
}

#[test]
fn other_texts_are_no_colors() {
    assert_eq!(parse_color(None), None);
    assert_eq!(parse_color(Some("")), None);
    assert_eq!(parse_color(Some("#")), None);
    assert_eq!(parse_color(Some("#ffff")), None);
    assert_eq!(parse_color(Some("#gg0000")), None);
    assert_eq!(parse_color(Some("#00gg00")), None);
    assert_eq!(parse_color(Some("#0000g0")), None);
    assert_eq!(parse_color(Some("#-f0000")), None);
    assert_eq!(parse_color(Some("#+00")), None);
    assert_eq!(parse_color(Some("red")), None);
    assert_eq!(parse_color(Some(" ff800")), None);
}

#[test]
fn two_digit_channels_take_a_plus_sign() {
    assert_eq!(parse_color(Some("#+f0010")), rgb(15, 0, 16));
    assert_eq!(u8::from_str_radix("+f", 16), Ok(15));
    assert_eq!(parse_color(Some("#++0010")), None);
    assert!(u8::from_str_radix("++", 16).is_err());
}

#[test]
fn channels_agree_with_the_standard_parser() {
    for high in 0u8..128 {
        for low in 0u8..128 {
            let pair: String = [high as char, low as char].iter().collect();
            let text = format!("00{pair}00");
            let expected = u8::from_str_radix(&pair, 16).ok();
            assert_eq!(parse_color(Some(&text)).map(|c| c.g), expected);
        }
    }
}

#[test]
fn split_characters_are_found() {
    // "a", a two-byte character and "b" several times over.
    assert!(color_splits_character("a\u{e9}aaa"));
    assert!(color_splits_character("#a\u{e9}aaa"));
    assert!(color_splits_character("aab\u{e9}a"));
    assert!(!color_splits_character("zzb\u{e9}a"));
    assert_eq!(parse_color(Some("zzb\u{e9}a")), None);
    assert!(!color_splits_character("\u{e9}aaaa"));
    assert_eq!(parse_color(Some("\u{e9}aaaa")), None);
    assert!(color_splits_character("\u{20ac}"));
    assert!(color_splits_character("a\u{e9}"));
    assert!(color_splits_character("\u{e9}a"));
    assert!(!color_splits_character("#ff8000"));
    assert!(!color_splits_character("\u{e9}\u{e9}"));
}

#[test]
fn every_color_comes_back_from_its_digits() {
    for v in 0u32..=255 {
        let (r, g, b) = (v as u8, (v * 7 % 256) as u8, (255 - v) as u8);
        let text = format!("#{r:02x}{g:02x}{b:02x}");
        assert_eq!(parse_color(Some(&text)), rgb(r, g, b));
        let text = format!("#{r:02X}{g:02x}{b:02X}");
        assert_eq!(parse_color(Some(&text)), rgb(r, g, b));
    }
}
