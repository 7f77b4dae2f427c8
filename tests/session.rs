use hexray::{App, Format, Key, Row, View};

fn view(size: usize, limit: Option<usize>) -> View {
    View {
        filepath: None,
        offset: 0,
        limit,
        size,
        format: Format::Hex,
        group_size: 4,
        no_color: false,
        simple: false,
    }
}

/// A session over `n` bytes (values 0, 1, 2, ...) with rows of `size`
/// bytes and a terminal `height` lines tall.
fn session(n: usize, size: usize, height: u16) -> App {
    let bytes: Vec<u8> = (0..n).map(|i| (i % 256) as u8).collect();
    let mut app = App::new(view(size, None), height);
    app.parse(&bytes, 0);
    app
}

fn assert_visible(app: &App) {
    let row = app.selected / app.cfg.size;
    assert!(app.selected <= app.total_bytes);
    assert!(app.scroll_offset <= row);
    assert!(row <= app.scroll_offset + app.rows_per_page - 1);
}

#[test]
fn forty_bytes_make_three_rows() {
    let mut app = session(40, 16, 40);
    assert_eq!(app.data.len(), 3);
    assert_eq!(app.data[0].bytes_read, 16);
    assert_eq!(app.data[1].bytes_read, 16);
    assert_eq!(app.data[2].bytes_read, 8);
    assert_eq!(app.data[1].offset, 16);
    assert_eq!(app.data[2].data, (32u8..40).collect::<Vec<u8>>());
    assert_eq!(app.total_bytes, 40);
    app.handle_key_event(Key::DocumentEnd);
    assert_eq!(app.selected, 40);
    assert_visible(&app);
}

#[test]
fn parse_stops_at_limit_and_keeps_start_offset() {
    let bytes: Vec<u8> = (0..100u8).collect();
    let mut app = App::new(view(16, Some(20)), 40);
    app.parse(&bytes, 1000);
    assert_eq!(app.total_bytes, 20);
    assert_eq!(app.data.len(), 2);
    assert_eq!(app.data[0].offset, 1000);
    assert_eq!(app.data[1].offset, 1016);
    assert_eq!(app.data[1].bytes_read, 4);
}

#[test]
fn parse_of_exact_rows_has_no_empty_row() {
    let app = session(32, 16, 40);
    assert_eq!(app.data.len(), 2);
    assert_eq!(app.data[1].bytes_read, 16);
}

#[test]
fn page_down_keeps_selection_visible() {
    let mut app = session(1000, 16, 16);
    assert_eq!(app.rows_per_page, 10);
    let expected_scroll = [10, 20, 30, 40, 50, 60];
    for step in 0..6 {
        app.handle_key_event(Key::PageDown);
        assert_visible(&app);
        assert!(app.scroll_offset <= 60);
        assert_eq!(app.scroll_offset, expected_scroll[step]);
        assert_eq!(app.selected, 160 * (step + 1));
    }
}

#[test]
fn page_down_at_the_end_clamps_to_total() {
    let mut app = session(1000, 16, 16);
    for _ in 0..8 {
        app.handle_key_event(Key::PageDown);
        assert_visible(&app);
    }
    assert_eq!(app.selected, 1000);
    assert_eq!(app.scroll_offset, 62);
}

#[test]
fn page_up_moves_back_and_clamps_at_zero() {
    let mut app = session(1000, 16, 16);
    app.handle_key_event(Key::PageDown);
    app.handle_key_event(Key::PageDown);
    app.handle_key_event(Key::Right);
    app.handle_key_event(Key::PageUp);
    assert_eq!(app.selected, 161);
    assert_eq!(app.scroll_offset, 10);
    app.handle_key_event(Key::PageUp);
    assert_eq!(app.selected, 1);
    assert_eq!(app.scroll_offset, 0);
    app.handle_key_event(Key::PageUp);
    assert_eq!(app.selected, 0);
    assert_eq!(app.scroll_offset, 0);
}

#[test]
fn row_home_and_end_stay_in_the_row() {
    let mut app = session(100, 16, 40);
    app.handle_key_event(Key::Down);
    for _ in 0..5 {
        app.handle_key_event(Key::Right);
    }
    assert_eq!(app.selected, 21);
    assert_eq!(app.col(app.selected), 5);
    app.handle_key_event(Key::Home);
    assert_eq!(app.selected, 16);
    app.handle_key_event(Key::End);
    assert_eq!(app.selected, 31);
}

#[test]
fn row_end_on_a_short_last_row_stops_at_total() {
    let mut app = session(40, 16, 40);
    app.handle_key_event(Key::Down);
    app.handle_key_event(Key::Down);
    for _ in 0..5 {
        app.handle_key_event(Key::Right);
    }
    assert_eq!(app.selected, 37);
    app.handle_key_event(Key::End);
    assert_eq!(app.selected, 40);
    app.handle_key_event(Key::Home);
    assert_eq!(app.selected, 32);
}

#[test]
fn left_at_start_and_right_at_end_do_nothing() {
    let mut app = session(40, 16, 40);
    app.handle_key_event(Key::Left);
    assert_eq!(app.selected, 0);
    assert_eq!(app.scroll_offset, 0);
    app.handle_key_event(Key::DocumentEnd);
    let scroll = app.scroll_offset;
    app.handle_key_event(Key::Right);
    assert_eq!(app.selected, 40);
    assert_eq!(app.scroll_offset, scroll);
}

#[test]
fn document_home_twice_is_document_home_once() {
    let mut app = session(1000, 16, 16);
    app.handle_key_event(Key::DocumentEnd);
    app.handle_key_event(Key::DocumentHome);
    assert_eq!((app.selected, app.scroll_offset), (0, 0));
    app.handle_key_event(Key::DocumentHome);
    assert_eq!((app.selected, app.scroll_offset), (0, 0));
}

#[test]
fn document_end_scrolls_in_one_step() {
    let mut app = session(1000, 16, 16);
    app.handle_key_event(Key::DocumentEnd);
    assert_eq!(app.selected, 1000);
    assert_eq!(app.scroll_offset, 53);
    app.handle_key_event(Key::Up);
    assert_eq!(app.selected, 984);
    assert_eq!(app.scroll_offset, 53);
}

#[test]
fn empty_buffer_ignores_every_movement() {
    let keys = [
        Key::Up,
        Key::Down,
        Key::Left,
        Key::Right,
        Key::Home,
        Key::End,
        Key::DocumentHome,
        Key::DocumentEnd,
        Key::PageUp,
        Key::PageDown,
    ];
    let mut app = session(0, 16, 40);
    assert_eq!(app.data.len(), 0);
    for key in keys {
        app.handle_key_event(key);
        assert_eq!(app.selected, 0);
        assert_eq!(app.scroll_offset, 0);
    }
    assert!(!app.exit);
}

#[test]
fn moving_up_and_down_scrolls_by_one_row() {
    let mut app = session(1000, 16, 16);
    for _ in 0..10 {
        app.handle_key_event(Key::Down);
    }
    assert_eq!(app.selected, 160);
    assert_eq!(app.scroll_offset, 1);
    for _ in 0..10 {
        app.handle_key_event(Key::Up);
    }
    assert_eq!(app.selected, 0);
    assert_eq!(app.scroll_offset, 0);
}

#[test]
fn down_from_a_long_column_into_a_short_last_row_clamps() {
    let mut app = session(40, 16, 40);
    app.handle_key_event(Key::Down);
    app.handle_key_event(Key::End);
    assert_eq!(app.selected, 31);
    app.handle_key_event(Key::Down);
    assert_eq!(app.selected, 40);
    app.handle_key_event(Key::Down);
    assert_eq!(app.selected, 40);
}

#[test]
fn quit_ends_the_session_only() {
    let mut app = session(40, 16, 40);
    app.handle_key_event(Key::Right);
    app.handle_key_event(Key::Quit);
    assert!(app.exit);
    assert_eq!(app.selected, 1);
}

#[test]
fn rows_per_page_follows_terminal_height() {
    assert_eq!(App::new(view(16, None), 40).rows_per_page, 34);
    assert_eq!(App::new(view(16, None), 16).rows_per_page, 10);
    assert_eq!(App::new(view(16, None), 3).rows_per_page, 10);
}

#[test]
fn resize_brings_the_selection_back_into_view() {
    let mut app = session(1000, 16, 40);
    for _ in 0..30 {
        app.handle_key_event(Key::Down);
    }
    assert_eq!(app.scroll_offset, 0);
    app.resize(16);
    assert_eq!(app.rows_per_page, 10);
    assert_eq!(app.scroll_offset, 21);
    assert_visible(&app);
}

#[test]
fn visible_rows_cover_one_page() {
    let mut app = session(1000, 16, 16);
    assert_eq!(app.visible_rows(), (0, 10));
    app.handle_key_event(Key::DocumentEnd);
    assert_eq!(app.visible_rows(), (53, 63));
}

#[test]
fn row_and_byte_conversions_round_trip() {
    let app = session(100, 16, 40);
    for n in 0..5usize {
        for c in 0..16usize {
            assert_eq!(app.col(app.rows(n) + c), c);
            assert_eq!(app.row(app.rows(n) + c), n);
        }
    }
}

#[test]
fn row_keeps_its_bytes_and_offset() {
    let row = Row::parse(&[1, 2, 3], 48);
    assert_eq!(row.data, vec![1, 2, 3]);
    assert_eq!(row.offset, 48);
    assert_eq!(row.bytes_read, 3);
}

#[test]
fn offset_column_is_padded_octal_of_low_byte() {
    assert_eq!(Row::parse(&[], 16).format_offset(), "\u{b7}\u{b7}\u{b7}\u{b7}\u{b7}020");
    assert_eq!(Row::parse(&[], 256 + 8).format_offset(), "\u{b7}\u{b7}\u{b7}\u{b7}\u{b7}010");
}

#[test]
fn printable_characters() {
    assert!(hexray::is_printable_ascii_character(&b'a'));
    assert!(!hexray::is_printable_ascii_character(&b' '));
    assert!(!hexray::is_printable_ascii_character(&b'\n'));
    assert!(hexray::is_printable_ascii_character(&0u8));
}

#[test]
fn selection_stays_visible_over_a_long_mixed_sequence() {
    let keys = [
        Key::PageDown,
        Key::Down,
        Key::Right,
        Key::End,
        Key::PageDown,
        Key::Up,
        Key::Left,
        Key::DocumentEnd,
        Key::PageUp,
        Key::Home,
        Key::Down,
        Key::PageDown,
        Key::DocumentHome,
        Key::Right,
        Key::PageDown,
        Key::PageDown,
        Key::PageDown,
        Key::Left,
        Key::PageUp,
        Key::Up,
    ];
    for (n, size, height) in [(0, 16, 16), (1, 16, 16), (40, 16, 16), (1000, 16, 16), (997, 7, 20), (300, 1, 17)] {
        let mut app = session(n, size, height);
        let mut seed: usize = 7;
        for step in 0..400 {
            seed = seed.wrapping_mul(1103515245).wrapping_add(12345);
            let key = keys[(seed >> 8) % keys.len()];
            app.handle_key_event(key);
            assert_visible(&app);
            if step % 97 == 0 {
                app.resize(10 + (seed % 40) as u16);
                assert_visible(&app);
            }
        }
    }
}
