use serial_unit_testing::codec::{
    bytes_from_binary_string, bytes_from_hex_string, encode_content, radix_string, TextFormat,
};
use serial_unit_testing::string_util::{
    escape_text, get_boolean_value, get_time_value, get_u32_value, get_u64_value,
};

#[test]
fn hex_string_to_bytes() {
    assert_eq!(bytes_from_hex_string("4f4b").unwrap(), vec![0x4f, 0x4b]);
    assert_eq!(bytes_from_hex_string("41").unwrap(), vec![0x41]);
    assert_eq!(bytes_from_hex_string("FFa0").unwrap(), vec![0xff, 0xa0]);
    assert_eq!(bytes_from_hex_string("").unwrap(), Vec::<u8>::new());
}

#[test]
fn hex_string_rejects_bad_input() {
    assert!(bytes_from_hex_string("4f4").is_none());
    assert!(bytes_from_hex_string("zz").is_none());
    assert!(bytes_from_hex_string("4f 4b").is_none());
}

#[test]
fn binary_string_to_bytes() {
    assert_eq!(bytes_from_binary_string("01000001").unwrap(), vec![0x41]);
    assert_eq!(
        bytes_from_binary_string("0100111101001011").unwrap(),
        vec![0x4f, 0x4b]
    );
}

#[test]
fn binary_string_rejects_bad_input() {
    assert!(bytes_from_binary_string("0100001").is_none());
    assert!(bytes_from_binary_string("01000002").is_none());
}

#[test]
fn encode_text_is_utf8() {
    assert_eq!(encode_content("OK", TextFormat::Text).unwrap(), vec![0x4f, 0x4b]);
    assert_eq!(encode_content("é", TextFormat::Text).unwrap(), vec![0xc3, 0xa9]);
    assert_eq!(encode_content("4f", TextFormat::Hex).unwrap(), vec![0x4f]);
    assert!(encode_content("4f4", TextFormat::Hex).is_none());
    assert_eq!(
        encode_content("01000001", TextFormat::Binary).unwrap(),
        vec![0x41]
    );
    assert_eq!(
        encode_content("123", TextFormat::Decimal).unwrap(),
        vec![b'1', b'2', b'3']
    );
}

#[test]
fn radix_string_renders_each_format() {
    let data = [0x4fu8, 0x4b];
    assert_eq!(radix_string(&data, TextFormat::Text), "OK");
    assert_eq!(radix_string(&data, TextFormat::Hex), "4f4b");
    assert_eq!(radix_string(&data, TextFormat::Binary), "0100111101001011");
    assert_eq!(radix_string(&data, TextFormat::Octal), "117113");
    assert_eq!(radix_string(&data, TextFormat::Decimal), "079075");
    assert_eq!(radix_string(&[], TextFormat::Hex), "");
}

#[test]
fn boolean_literals() {
    assert_eq!(get_boolean_value("true"), Some(true));
    assert_eq!(get_boolean_value("yes"), Some(true));
    assert_eq!(get_boolean_value("1"), Some(true));
    assert_eq!(get_boolean_value("false"), Some(false));
    assert_eq!(get_boolean_value("no"), Some(false));
    assert_eq!(get_boolean_value("0"), Some(false));
    assert_eq!(get_boolean_value("maybe"), None);
    assert_eq!(get_boolean_value(""), None);
}

#[test]
fn time_literals() {
    assert_eq!(get_time_value("500ms"), Some(500));
    assert_eq!(get_time_value("2s"), Some(2000));
    assert_eq!(get_time_value("750"), Some(750));
    assert_eq!(get_time_value("0ms"), Some(0));
    assert_eq!(get_time_value("ms"), None);
    assert_eq!(get_time_value("soon"), None);
    assert_eq!(get_time_value("12x"), None);
    assert_eq!(get_time_value("99999999999999999999s"), None);
}

#[test]
fn escape_sequences_are_replaced() {
    assert_eq!(escape_text("a\\nb"), "a\nb");
    assert_eq!(escape_text("\\r\\t\\0"), "\r\t\0");
    assert_eq!(escape_text("\\\\ and \\\""), "\\ and \"");
    assert_eq!(escape_text("\\x"), "\\x");
    assert_eq!(escape_text("tail\\"), "tail\\");
    assert_eq!(escape_text("plain"), "plain");
}

#[test]
fn number_literals() {
    assert_eq!(get_u32_value("3"), Some(3));
    assert_eq!(get_u32_value("4294967295"), Some(u32::MAX));
    assert_eq!(get_u32_value("4294967296"), None);
    assert_eq!(get_u32_value("many"), None);
    assert_eq!(get_u32_value(""), None);
    assert_eq!(get_u64_value("18446744073709551615"), Some(u64::MAX));
    assert_eq!(get_u64_value("18446744073709551616"), None);
}
