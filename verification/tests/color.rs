use sketchover::color::{parse_solid, Color, ColorError};

#[test]
fn color_text_is_lower_case_hex() {
    let c = Color { r: 200, g: 140, b: 80, a: 0 };
    assert_eq!(c.to_hex(), "#c88c5000");
    let c = Color { r: 255, g: 0, b: 171, a: 9 };
    assert_eq!(c.to_hex(), "#ff00ab09");
}

#[test]
fn color_text_is_read_back() {
    for c in [
        Color { r: 0, g: 0, b: 0, a: 0 },
        Color { r: 255, g: 255, b: 255, a: 255 },
        Color { r: 200, g: 140, b: 80, a: 0 },
        Color { r: 1, g: 16, b: 171, a: 254 },
    ] {
        assert_eq!(parse_solid(&c.to_hex()), Ok(c));
    }
}

#[test]
fn every_channel_value_is_read_back() {
    for v in 0..=255u8 {
        let c = Color { r: v, g: 255 - v, b: v ^ 0x5a, a: v.wrapping_mul(7) };
        assert_eq!(parse_solid(&c.to_hex()), Ok(c));
    }
}

#[test]
fn color_is_read_in_either_case() {
    assert_eq!(parse_solid("#FF0000FF"), Ok(Color { r: 255, g: 0, b: 0, a: 255 }));
    assert_eq!(parse_solid("#ffFFff40"), Ok(Color { r: 255, g: 255, b: 255, a: 0x40 }));
    assert_eq!(parse_solid("#0000FFFF"), Ok(Color { r: 0, g: 0, b: 255, a: 255 }));
}

#[test]
fn color_is_read_from_the_shorter_forms() {
    assert_eq!(parse_solid("#F00"), Ok(Color { r: 255, g: 0, b: 0, a: 255 }));
    assert_eq!(parse_solid("#0fff"), Ok(Color { r: 0, g: 255, b: 255, a: 255 }));
    assert_eq!(parse_solid("#1a28"), Ok(Color { r: 0x11, g: 0xaa, b: 0x22, a: 0x88 }));
    assert_eq!(parse_solid("#DDA0DD"), Ok(Color { r: 0xdd, g: 0xa0, b: 0xdd, a: 255 }));
}

#[test]
fn a_plus_sign_stands_for_a_missing_high_digit() {
    assert_eq!(parse_solid("#+f+0+a+9"), Ok(Color { r: 15, g: 0, b: 10, a: 9 }));
    assert_eq!(parse_solid("#+f0"), Err(ColorError::InvalidDigit));
    assert_eq!(parse_solid("#f+f+f+f+"), Err(ColorError::InvalidDigit));
    assert_eq!(parse_solid("#-f-f-f-f"), Err(ColorError::InvalidDigit));
}

#[test]
fn empty_text_is_no_color() {
    assert_eq!(parse_solid(""), Err(ColorError::Empty));
}

#[test]
fn text_of_a_wrong_shape_is_no_color() {
    assert_eq!(parse_solid("c88c5000"), Err(ColorError::InvalidFormat));
    assert_eq!(parse_solid("#"), Err(ColorError::InvalidFormat));
    assert_eq!(parse_solid("#c8"), Err(ColorError::InvalidFormat));
    assert_eq!(parse_solid("#c88c5"), Err(ColorError::InvalidFormat));
    assert_eq!(parse_solid("#c88c50001"), Err(ColorError::InvalidFormat));
    assert_eq!(parse_solid(" #c88c5000"), Err(ColorError::InvalidFormat));
}

#[test]
fn text_with_a_wrong_digit_is_no_color() {
    assert_eq!(parse_solid("#c88c50g0"), Err(ColorError::InvalidDigit));
    assert_eq!(parse_solid("#xyz"), Err(ColorError::InvalidDigit));
    assert_eq!(parse_solid("#c88c50\u{e9}"), Err(ColorError::InvalidDigit));
}
