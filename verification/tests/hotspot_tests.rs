use ani_gif::error::ConvError;
use ani_gif::hotspot::{parse_hotspot, validate_hotspot};

#[test]
fn parse_valid_pair() {
    assert_eq!(parse_hotspot(&String::from("5:7")), Ok((5, 7)));
}

#[test]
fn parse_single_field_defaults_y() {
    assert_eq!(parse_hotspot(&String::from("5")), Ok((5, 0)));
}

#[test]
fn parse_extra_fields_ignored() {
    assert_eq!(parse_hotspot(&String::from("1:2:3")), Ok((1, 2)));
}

#[test]
fn parse_plus_signs() {
    assert_eq!(parse_hotspot(&String::from("+5:+6")), Ok((5, 6)));
}

#[test]
fn parse_zero_pair() {
    assert_eq!(parse_hotspot(&String::from("0:0")), Ok((0, 0)));
}

#[test]
fn parse_max_value() {
    assert_eq!(parse_hotspot(&String::from("65535:00042")), Ok((65535, 42)));
}

#[test]
fn parse_empty_fails() {
    assert_eq!(
        parse_hotspot(&String::from("")),
        Err(ConvError::InvalidHotspotDefinition)
    );
}

#[test]
fn parse_non_numeric_fails() {
    assert_eq!(
        parse_hotspot(&String::from("a:b")),
        Err(ConvError::InvalidHotspotDefinition)
    );
}

#[test]
fn parse_trailing_separator_fails() {
    assert_eq!(
        parse_hotspot(&String::from("5:")),
        Err(ConvError::InvalidHotspotDefinition)
    );
}

#[test]
fn parse_missing_x_fails() {
    assert_eq!(
        parse_hotspot(&String::from(":5")),
        Err(ConvError::InvalidHotspotDefinition)
    );
}

#[test]
fn parse_out_of_range_fails() {
    assert_eq!(
        parse_hotspot(&String::from("70000:1")),
        Err(ConvError::InvalidHotspotDefinition)
    );
}

#[test]
fn parse_negative_fails() {
    assert_eq!(
        parse_hotspot(&String::from("-1:2")),
        Err(ConvError::InvalidHotspotDefinition)
    );
}

#[test]
fn validate_in_range_returns_pair_unchanged() {
    assert_eq!(validate_hotspot(&String::from("5:5"), 10, 10), Ok((5, 5)));
    assert_eq!(validate_hotspot(&String::from("0:0"), 1, 1), Ok((0, 0)));
    assert_eq!(
        validate_hotspot(&String::from("256:256"), 300, 300),
        Ok((256, 256))
    );
    assert_eq!(validate_hotspot(&String::from("10:8"), 10, 8), Ok((10, 8)));
}

#[test]
fn validate_above_max_fails_whatever_the_canvas() {
    assert_eq!(
        validate_hotspot(&String::from("300:10"), 1000, 1000),
        Err(ConvError::HotspotOutOfMaxRange(300, 10))
    );
    assert_eq!(
        validate_hotspot(&String::from("300:10"), 4, 4),
        Err(ConvError::HotspotOutOfMaxRange(300, 10))
    );
    assert_eq!(
        validate_hotspot(&String::from("10:257"), 1000, 1000),
        Err(ConvError::HotspotOutOfMaxRange(10, 257))
    );
}

#[test]
fn validate_outside_canvas_fails_with_both_dimensions() {
    assert_eq!(
        validate_hotspot(&String::from("10:10"), 8, 300),
        Err(ConvError::HotspotOutOfGifRange(10, 10, 8, 300))
    );
    assert_eq!(
        validate_hotspot(&String::from("3:10"), 8, 9),
        Err(ConvError::HotspotOutOfGifRange(3, 10, 8, 9))
    );
}

#[test]
fn validate_unparseable_fails() {
    assert_eq!(
        validate_hotspot(&String::from("x=1"), 100, 100),
        Err(ConvError::InvalidHotspotDefinition)
    );
}
