use hexray::{Color, Colorable, Format, Output, View};

fn view(size: usize, group_size: usize, simple: bool) -> View {
    View {
        filepath: None,
        offset: 0,
        limit: None,
        size,
        format: Format::Hex,
        group_size,
        no_color: false,
        simple,
    }
}

#[test]
fn hex_values_are_grouped_and_padded() {
    let v = view(8, 4, false);
    let chunk = [0x41u8, 0x42, 0x43, 0x0a, 0x00, 0xff, 0, 0];
    assert_eq!(v.format_hex_values(&chunk, 6, false), "41 42 43 0a  00 ff       ");
}

#[test]
fn hex_values_in_color() {
    let v = view(2, 4, false);
    assert_eq!(
        v.format_hex_values(&[0x10, 0x20], 2, true),
        "\u{1b}[37m10\u{1b}[0m \u{1b}[37m20\u{1b}[0m "
    );
}

#[test]
fn ascii_column_shows_dots_for_whitespace_and_blanks_past_the_end() {
    let v = view(8, 4, false);
    let chunk = [b'a', b' ', b'c', b'\n', b'z', 0, 0, 0];
    assert_eq!(v.format_ascii_representation(&chunk, 5, false), "a\u{b7}c\u{b7} z   ");
}

#[test]
fn offset_column_in_both_styles() {
    assert_eq!(view(16, 4, true).format_offset(16, false), "00000020");
    assert_eq!(
        view(16, 4, false).format_offset(16, false),
        " \u{b7}\u{b7}\u{b7}\u{b7}\u{b7}020"
    );
}

#[test]
fn full_line_in_both_styles() {
    let chunk = [0x61u8, 0x62];
    assert_eq!(
        view(2, 4, true).format_line(&chunk, 2, 0, false),
        "00000000:  61 62   | ab"
    );
    assert_eq!(
        view(2, 4, false).format_line(&chunk, 2, 0, false),
        "\u{2502}  \u{b7}\u{b7}\u{b7}\u{b7}\u{b7}000 \u{2502} 61 62  \u{2502} ab \u{2502}"
    );
}

#[test]
fn borders_follow_row_and_group_sizes() {
    let v = view(4, 2, false);
    let top = v.top_line().unwrap();
    let dash = "\u{2500}";
    let expected = format!(
        "\u{250c}{}\u{252c}{}\u{252c}{}\u{2510}",
        dash.repeat(11),
        dash.repeat(1 + 3 * 4 + 1 + 1),
        dash.repeat(1 + 4 + 1 + 1)
    );
    assert_eq!(top, expected);
    assert!(v.bottom_line().unwrap().starts_with("\u{2514}"));
    assert!(view(4, 2, true).top_line().is_none());
    assert!(view(4, 2, true).bottom_line().is_none());
}

#[test]
fn value_stream_respects_limit_and_separator() {
    let out = Output {
        filepath: None,
        offset: 0,
        limit: Some(3),
        format: Format::UpperHexWithPrefix,
        separator: String::from(","),
    };
    assert_eq!(out.format_values(&[1, 2, 0xab, 4]), "0x01,0x02,0xAB,");
    let all = Output { limit: None, ..out };
    assert_eq!(all.format_values(&[]), "");
}

#[test]
fn format_names() {
    assert_eq!(Format::from_name("hex"), Some(Format::Hex));
    assert_eq!(Format::from_name("#x"), Some(Format::HexWithPrefix));
    assert_eq!(Format::from_name("Hexadecimal"), Some(Format::UpperHex));
    assert_eq!(Format::from_name("#X"), Some(Format::UpperHexWithPrefix));
    assert_eq!(Format::from_name("bin"), Some(Format::Binary));
    assert_eq!(Format::from_name("#b"), Some(Format::BinaryWithPrefix));
    assert_eq!(Format::from_name("oct"), Some(Format::Octal));
    assert_eq!(Format::from_name("#octal"), Some(Format::OctalWithPrefix));
    assert_eq!(Format::from_name("d"), Some(Format::Decimal));
    assert_eq!(Format::from_name("hexa"), None);
    assert_eq!(Format::from_name(""), None);
}

#[test]
fn colors_wrap_text_only_when_enabled() {
    assert_eq!("ab".ansi(Color::Black, true), "\u{1b}[30mab\u{1b}[0m");
    assert_eq!(String::from("ab").ansi(Color::White, true), "\u{1b}[37mab\u{1b}[0m");
    assert_eq!("ab".ansi(Color::White, false), "ab");
    assert_eq!(Color::White.code(), 37);
}

#[test]
fn browser_column_widths() {
    assert_eq!(view(16, 4, false).column_widths(), Some((16 * 3 + 4 + 4, 17 + 4 + 2)));
    let mut wide = view(16, 3, false);
    wide.format = Format::BinaryWithPrefix;
    assert_eq!(wide.column_widths(), Some((16 * 11 + 5 + 4, 17 + 5 + 2)));
    assert_eq!(view(usize::MAX, 1, false).column_widths(), None);
}
