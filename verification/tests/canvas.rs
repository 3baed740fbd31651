//! The canvas, the bitmap fonts and the display frame protocol.

use wificlock::display::{order, Canvas, Command, Order, Screen};
use wificlock::font::{alphabet_big_digits, alphabet_nano, alphabet_normal, alphabet_tiny, build_glyph};

#[test]
fn command_codes_match_the_wire() {
    assert_eq!(Command::Noop.code(), 0x00);
    assert_eq!(Command::Digit0.code(), 0x01);
    assert_eq!(Command::Digit7.code(), 0x08);
    assert_eq!(Command::DecodeMode.code(), 0x09);
    assert_eq!(Command::Intensity.code(), 0x0a);
    assert_eq!(Command::ScanLimit.code(), 0x0b);
    assert_eq!(Command::Power.code(), 0x0c);
    assert_eq!(Command::DisplayTest.code(), 0x0f);
    assert_eq!(Command::default(), Command::Noop);
}

#[test]
fn order_carries_command_and_data() {
    let o = order(Command::Intensity, 3);
    assert_eq!(o.command, Command::Intensity);
    assert_eq!(o.data, 3);
    let d = Order::default();
    assert_eq!(d.command, Command::Noop);
    assert_eq!(d.data, 0);
}

#[test]
fn pixels_out_of_range_are_ignored() {
    let mut canvas: Canvas<8, 8> = Canvas::init();
    canvas.on(0, 0);
    canvas.on(8, 0);
    canvas.on(0, 8);
    let raw = canvas.to_raw::<1>();
    assert_eq!(raw[0][0], 0x80);
    for y in 1..8 {
        assert_eq!(raw[y][0], 0x00);
    }
    canvas.off(0, 0);
    assert_eq!(canvas.to_raw::<1>()[0][0], 0x00);
}

#[test]
fn big_digit_renders_as_its_glyph_rows() {
    let mut canvas: Canvas<8, 8> = Canvas::init();
    canvas.print_8x8(0, 0, "1");
    let raw = canvas.to_raw::<1>();
    let expected = [0x18u8, 0x18, 0x38, 0x18, 0x18, 0x18, 0x3c, 0x00];
    for y in 0..8 {
        assert_eq!(raw[y][0], expected[y]);
    }
}

#[test]
fn lower_half_maps_four_modules_right() {
    let mut canvas: Canvas<32, 16> = Canvas::init();
    canvas.on(8, 10);
    let raw = canvas.to_raw::<8>();
    assert_eq!(raw[2][5], 0x80);
    assert_eq!(raw[2][1], 0x00);
}

#[test]
fn cursor_advances_by_glyph_width() {
    let mut canvas: Canvas<16, 8> = Canvas::init();
    // ':' is three pixels wide in the big-digit alphabet, so the '1' after
    // it starts at column 3.
    canvas.print_8x8(0, 0, ":1");
    let raw = canvas.to_raw::<2>();
    // Row 1 of ':' is 0x00, row 1 of '1' is 0x18 shifted right by 3.
    assert_eq!(raw[1][0], 0x18 >> 3);
}

#[test]
fn glyph_packs_big_endian_rows() {
    let g = build_glyph(7, 0x384c5c6c4c4c3800);
    assert_eq!(g.width, 7);
    assert_eq!(g.data, [0x38, 0x4c, 0x5c, 0x6c, 0x4c, 0x4c, 0x38, 0x00]);
}

#[test]
fn font_widths_match_the_tables() {
    let big = alphabet_big_digits();
    assert_eq!(big.width_of('0'), 7);
    assert_eq!(big.width_of(':'), 3);
    let normal = alphabet_normal();
    assert_eq!(normal.width_of('A'), 5);
    assert_eq!(normal.width_of('&'), 6);
    assert_eq!(normal.width_of('!'), 4);
    let tiny = alphabet_tiny();
    assert_eq!(tiny.width_of('7'), 4);
    let nano = alphabet_nano();
    assert_eq!(nano.width_of(';'), 3);
}

#[test]
fn font_lines_match_the_tables() {
    let normal = alphabet_normal();
    assert_eq!(normal.to_line(0, 'A'), 0x60);
    assert_eq!(normal.to_line(1, 'A'), 0x90);
    assert_eq!(normal.to_line(7, 'A'), 0x00);
    let big = alphabet_big_digits();
    assert_eq!(big.to_line(0, '9'), 0x38);
}

#[test]
fn out_of_range_chars_use_the_fallback() {
    let normal = alphabet_normal();
    // '\u{7f}' lies past '~': the fallback '?' stands in.
    assert_eq!(normal.width_of('\u{7f}'), normal.width_of('?'));
    assert_eq!(normal.to_line(0, '\u{7f}'), normal.to_line(0, '?'));
    let tiny = alphabet_tiny();
    assert_eq!(tiny.width_of('z'), tiny.width_of('?'));
}

#[test]
fn heights_match_the_tables() {
    assert_eq!(alphabet_big_digits().height(), 8);
    assert_eq!(alphabet_normal().height(), 7);
    assert_eq!(alphabet_tiny().height(), 6);
    assert_eq!(alphabet_nano().height(), 4);
}

#[test]
fn frame_all_repeats_per_module() {
    let frame = Screen::<2>::frame_all(order(Command::Power, 1));
    assert_eq!(frame, vec![0x0c, 1, 0x0c, 1]);
}

#[test]
fn frame_carries_per_module_data() {
    let frame = Screen::<3>::frame(Command::Digit2, &vec![0xaa, 0xbb, 0xcc]);
    assert_eq!(frame, vec![0x03, 0xaa, 0x03, 0xbb, 0x03, 0xcc]);
}

#[test]
fn init_frames_sequence_the_controller() {
    let frames = Screen::<1>::init_frames();
    assert_eq!(frames.len(), 13);
    assert_eq!(frames[0], vec![0x0f, 0]);
    assert_eq!(frames[1], vec![0x0b, 0x07]);
    assert_eq!(frames[2], vec![0x09, 0]);
    for i in 0..8 {
        assert_eq!(frames[3 + i], vec![(i + 1) as u8, 0]);
    }
    assert_eq!(frames[11], vec![0x0a, 0]);
    assert_eq!(frames[12], vec![0x0c, 1]);
}

#[test]
fn draw_frames_send_each_digit_row() {
    let mut canvas: Canvas<8, 8> = Canvas::init();
    canvas.print_8x8(0, 0, "1");
    let frames = Screen::<1>::draw_frames(&canvas);
    assert_eq!(frames.len(), 8);
    assert_eq!(frames[0], vec![0x01, 0x18]);
    assert_eq!(frames[6], vec![0x07, 0x3c]);
    assert_eq!(frames[7], vec![0x08, 0x00]);
}
