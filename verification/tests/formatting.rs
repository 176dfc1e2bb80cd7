use hexbytes::format::format_bytes;

#[test]
fn no_bytes_give_empty_brackets() {
    assert_eq!(format_bytes(&[]), "[]");
}

#[test]
fn one_byte_has_no_separator() {
    assert_eq!(format_bytes(&[10]), "[10u8]");
}

#[test]
fn bytes_are_joined_by_comma_and_space() {
    assert_eq!(format_bytes(&[10, 11, 28]), "[10u8, 11u8, 28u8]");
}

#[test]
fn numerals_have_no_leading_zeros() {
    assert_eq!(format_bytes(&[0]), "[0u8]");
    assert_eq!(format_bytes(&[7]), "[7u8]");
    assert_eq!(format_bytes(&[9, 10, 99, 100, 101, 109, 110, 199, 200, 255]),
        "[9u8, 10u8, 99u8, 100u8, 101u8, 109u8, 110u8, 199u8, 200u8, 255u8]");
}

#[test]
fn every_byte_value_is_written_in_decimal() {
    for byte in 0..=255u8 {
        assert_eq!(format_bytes(&[byte]), format!("[{}u8]", byte));
    }
}

#[test]
fn all_byte_values_in_one_array() {
    let bytes: Vec<u8> = (0..=255u8).collect();
    let entries: Vec<String> = bytes.iter().map(|b| format!("{}u8", b)).collect();
    assert_eq!(format_bytes(&bytes), format!("[{}]", entries.join(", ")));
}

#[test]
fn equal_bytes_are_all_written() {
    assert_eq!(format_bytes(&[0, 0, 0]), "[0u8, 0u8, 0u8]");
}
