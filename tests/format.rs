use hexray::Format;

const TEST_INPUT: u8 = 63;

#[test]
fn should_format_as_hex() {
    assert_eq!(Format::Hex.format(TEST_INPUT), "3f");
}

#[test]
fn should_format_as_hex_with_prefix() {
    assert_eq!(Format::HexWithPrefix.format(TEST_INPUT), "0x3f");
}

#[test]
fn should_format_as_uppercase_hex() {
    assert_eq!(Format::UpperHex.format(TEST_INPUT), "3F");
}

#[test]
fn should_format_as_uppercase_hex_with_prefix() {
    assert_eq!(Format::UpperHexWithPrefix.format(TEST_INPUT), "0x3F");
}

#[test]
fn should_format_as_binary() {
    assert_eq!(Format::Binary.format(TEST_INPUT), "00111111");
}

#[test]
fn should_format_as_binary_with_prefix() {
    assert_eq!(Format::BinaryWithPrefix.format(TEST_INPUT), "0b00111111");
}

#[test]
fn should_format_as_octal() {
    assert_eq!(Format::Octal.format(TEST_INPUT), "077");
}

#[test]
fn should_format_as_octal_with_prefix() {
    assert_eq!(Format::OctalWithPrefix.format(TEST_INPUT), "0o077");
}

#[test]
fn should_format_as_decimal() {
    assert_eq!(Format::Decimal.format(TEST_INPUT), "063");
}

#[test]
fn should_have_appropriate_size() {
    assert_eq!(Format::Hex.size(), "3f".len());
    assert_eq!(Format::HexWithPrefix.size(), "0x3f".len());
    assert_eq!(Format::UpperHex.size(), "3F".len());
    assert_eq!(Format::UpperHexWithPrefix.size(), "0x3F".len());
    assert_eq!(Format::Binary.size(), "00111111".len());
    assert_eq!(Format::BinaryWithPrefix.size(), "0b00111111".len());
    assert_eq!(Format::Octal.size(), "077".len());
    assert_eq!(Format::OctalWithPrefix.size(), "0o077".len());
    assert_eq!(Format::Decimal.size(), "063".len());
}

#[test]
fn formats_extreme_bytes() {
    assert_eq!(Format::Hex.format(0), "00");
    assert_eq!(Format::UpperHex.format(255), "FF");
    assert_eq!(Format::Binary.format(255), "11111111");
    assert_eq!(Format::Octal.format(255), "377");
    assert_eq!(Format::Decimal.format(255), "255");
    assert_eq!(Format::Decimal.format(7), "007");
    assert_eq!(Format::OctalWithPrefix.format(8), "0o010");
}

#[test]
fn default_format_is_hex() {
    assert!(matches!(Format::default(), Format::Hex));
}
