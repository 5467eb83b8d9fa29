use colorseq::color::make_color_from_num;
use colorseq::color::make_color_from_rgb;
use colorseq::color::make_color_from_specifier;
use colorseq::color::ColorType;
use colorseq::color::ParseReason;

#[test]
fn hex_boundary_specifier() {
    let result = make_color_from_specifier(String::from("#4080FF")).unwrap();
    assert_eq!(result.r, 64);
    assert_eq!(result.g, 128);
    assert_eq!(result.b, 255);
    assert_eq!(result.hex, "#4080FF");
    assert_eq!(result.color_type, ColorType::ColorTrue);
}

#[test]
fn lowercase_hex_specifier() {
    let result = make_color_from_specifier(String::from("#ab01ff")).unwrap();
    assert_eq!(result.r, 171);
    assert_eq!(result.g, 1);
    assert_eq!(result.b, 255);
    assert_eq!(result.hex, "#AB01FF");
    assert_eq!(result.color_type, ColorType::ColorTrue);
}

#[test]
fn palette_255_boundary_specifier() {
    let result = make_color_from_specifier(String::from("40")).unwrap();
    assert_eq!(result.r, 0);
    assert_eq!(result.g, 215);
    assert_eq!(result.b, 0);
    assert_eq!(result.color_type, ColorType::Color255);
}

#[test]
fn palette_16_boundary_specifier() {
    let result = make_color_from_specifier(String::from("1")).unwrap();
    assert_eq!(result.r, 128);
    assert_eq!(result.g, 0);
    assert_eq!(result.b, 0);
    assert_eq!(result.color_type, ColorType::Color16);
}

#[test]
fn triplet_boundary_specifier() {
    let escape: char = char::from_u32(0x1b).unwrap();
    let result = make_color_from_specifier(String::from("64;128;255")).unwrap();
    assert_eq!(result.plain_sequence, "64;128;255");
    assert_eq!(result.plain_sequence_enclosed, "\"64;128;255\"");
    assert_eq!(result.vt_sequence_foreground, format!("{escape}[38;2;64;128;255m"));
    assert_eq!(result.vt_sequence_background, format!("{escape}[48;2;64;128;255m"));
    assert_eq!(result.color_type, ColorType::ColorTrue);
}

#[test]
fn channel_out_of_range_is_rejected() {
    let err = make_color_from_specifier(String::from("256;0;0")).unwrap_err();
    assert_eq!(err.reason, ParseReason::TripletChannel);
    assert_eq!(err.input, "256;0;0");
}

#[test]
fn invalid_hex_digit_is_rejected() {
    let err = make_color_from_specifier(String::from("#ZZZZZZ")).unwrap_err();
    assert_eq!(err.reason, ParseReason::HexMalformed);
    assert_eq!(err.input, "#ZZZZZZ");
}

#[test]
fn short_hex_code_is_rejected() {
    let err = make_color_from_specifier(String::from("#12345")).unwrap_err();
    assert_eq!(err.reason, ParseReason::HexMalformed);
}

#[test]
fn empty_specifier_is_rejected() {
    let err = make_color_from_specifier(String::from("")).unwrap_err();
    assert_eq!(err.reason, ParseReason::Unrecognized);
    assert_eq!(err.input, "");
}

#[test]
fn word_specifier_is_rejected() {
    let err = make_color_from_specifier(String::from("crimson")).unwrap_err();
    assert_eq!(err.reason, ParseReason::Unrecognized);
    assert_eq!(err.input, "crimson");
}

#[test]
fn two_part_triplet_is_rejected() {
    let err = make_color_from_specifier(String::from("64;128")).unwrap_err();
    assert_eq!(err.reason, ParseReason::TripletPartCount);
}

#[test]
fn four_part_triplet_is_rejected() {
    let err = make_color_from_specifier(String::from("1;2;3;4")).unwrap_err();
    assert_eq!(err.reason, ParseReason::TripletPartCount);
}

#[test]
fn empty_triplet_channel_is_rejected() {
    let err = make_color_from_specifier(String::from("64;;255")).unwrap_err();
    assert_eq!(err.reason, ParseReason::TripletChannel);
}

#[test]
fn non_numeric_channel_is_rejected() {
    let err = make_color_from_specifier(String::from("64;x;255")).unwrap_err();
    assert_eq!(err.reason, ParseReason::TripletChannel);
}

#[test]
fn color_number_out_of_range_is_rejected() {
    let err = make_color_from_specifier(String::from("300")).unwrap_err();
    assert_eq!(err.reason, ParseReason::IndexOutOfRange);
    assert_eq!(err.input, "300");
}

#[test]
fn leading_zeros_are_accepted() {
    let result = make_color_from_specifier(String::from("0040")).unwrap();
    assert_eq!(result.r, 0);
    assert_eq!(result.g, 215);
    assert_eq!(result.b, 0);
    assert_eq!(result.color_type, ColorType::Color255);
}

#[test]
fn quoted_specifier_parses_as_unquoted() {
    let quoted = make_color_from_specifier(String::from("\"0;215;0\"")).unwrap();
    let plain = make_color_from_specifier(String::from("0;215;0")).unwrap();
    assert_eq!(quoted.r, plain.r);
    assert_eq!(quoted.g, plain.g);
    assert_eq!(quoted.b, plain.b);
    assert_eq!(quoted.plain_sequence, plain.plain_sequence);
    assert_eq!(quoted.hex, plain.hex);
    assert_eq!(quoted.color_type, plain.color_type);
}

#[test]
fn quoted_number_parses_as_unquoted() {
    let quoted = make_color_from_specifier(String::from("\"7\"")).unwrap();
    let plain = make_color_from_specifier(String::from("7")).unwrap();
    assert_eq!(quoted.r, plain.r);
    assert_eq!(quoted.g, plain.g);
    assert_eq!(quoted.b, plain.b);
    assert_eq!(quoted.color_type, plain.color_type);
}

#[test]
fn plain_sequence_round_trips_from_rgb() {
    let record = make_color_from_rgb(12, 0, 99);
    let again = make_color_from_specifier(record.plain_sequence.clone()).unwrap();
    assert_eq!(again.r, 12);
    assert_eq!(again.g, 0);
    assert_eq!(again.b, 99);
    assert_eq!(again.color_type, ColorType::ColorTrue);
}

#[test]
fn plain_sequence_round_trips_from_num() {
    let record = make_color_from_num(201);
    let again = make_color_from_specifier(record.plain_sequence.clone()).unwrap();
    assert_eq!(again.r, record.r);
    assert_eq!(again.g, record.g);
    assert_eq!(again.b, record.b);
    assert_eq!(again.color_type, ColorType::ColorTrue);
}

#[test]
fn enclosed_sequence_round_trips() {
    let record = make_color_from_rgb(0, 255, 7);
    let again = make_color_from_specifier(record.plain_sequence_enclosed.clone()).unwrap();
    assert_eq!(again.r, 0);
    assert_eq!(again.g, 255);
    assert_eq!(again.b, 7);
}

#[test]
fn hex_round_trips_from_rgb() {
    let record = make_color_from_rgb(1, 2, 3);
    let again = make_color_from_specifier(record.hex.clone()).unwrap();
    assert_eq!(again.r, 1);
    assert_eq!(again.g, 2);
    assert_eq!(again.b, 3);
    assert_eq!(again.hex, record.hex);
    assert_eq!(again.color_type, ColorType::ColorTrue);
}

#[test]
fn hex_round_trips_from_num() {
    let record = make_color_from_num(45);
    let again = make_color_from_specifier(record.hex.clone()).unwrap();
    assert_eq!(again.r, record.r);
    assert_eq!(again.g, record.g);
    assert_eq!(again.b, record.b);
    assert_eq!(again.color_type, ColorType::ColorTrue);
}

#[test]
fn triplet_has_priority_over_numeric() {
    let result = make_color_from_specifier(String::from("1;2;3")).unwrap();
    assert_eq!(result.r, 1);
    assert_eq!(result.g, 2);
    assert_eq!(result.b, 3);
    assert_eq!(result.color_type, ColorType::ColorTrue);
}

#[test]
fn uppercase_hex_formatting() {
    let result = make_color_from_rgb(255, 10, 171);
    assert_eq!(result.hex, "#FF0AAB");
    assert_eq!(result.color_type, ColorType::ColorTrue);
}

#[test]
fn zero_channels_format_without_padding() {
    let result = make_color_from_rgb(0, 0, 0);
    assert_eq!(result.plain_sequence, "0;0;0");
    assert_eq!(result.hex, "#000000");
}
