use rasterm::engine::terminal::{AsciiTerminal, ColorTerminal};

#[test]
fn write_pixel_emits_both_colors_and_half_block() {
    let term = ColorTerminal::with_size(80, 24);
    let mut buffer = String::from("x");
    term.write_pixel(&mut buffer, (255, 0, 7), (10, 200, 99));
    assert_eq!(buffer, "x\x1b[48;2;255;0;7m\x1b[38;2;10;200;99m\u{2584}");
    assert_eq!(term.width(), 80);
    assert_eq!(term.height(), 24);
}

#[test]
fn ascii_gradient_is_the_shading_ramp() {
    let term = AsciiTerminal::with_size(40, 10);
    let ramp: String = (0..term.gradient_len()).map(|i| term.glyph(i)).collect();
    assert_eq!(ramp, " .:;+=xX$#&");
    assert_eq!(term.width(), 40);
    assert_eq!(term.height(), 10);
}

fn cell(bg: (u8, u8, u8), fg: (u8, u8, u8)) -> String {
    format!(
        "\x1b[48;2;{};{};{}m\x1b[38;2;{};{};{}m\u{2584}",
        bg.0, bg.1, bg.2, fg.0, fg.1, fg.2
    )
}

#[test]
fn color_row_stacks_two_image_rows_and_wraps() {
    let term = ColorTerminal::with_size(3, 1);
    let pixels = vec![(1, 2, 3), (4, 5, 6), (7, 8, 9), (10, 11, 12)];
    let row = term.row(&pixels, 2, 2, 0, 3);
    let expected = cell((1, 2, 3), (7, 8, 9)) + &cell((4, 5, 6), (10, 11, 12)) + &cell((1, 2, 3), (7, 8, 9));
    assert_eq!(row, expected);
}

#[test]
fn color_frame_is_its_rows_in_order() {
    let term = ColorTerminal::with_size(2, 2);
    let pixels = vec![(0, 0, 0), (255, 255, 255), (9, 9, 9)];
    // A 1 by 3 image: rows 0/1 form the first output row, rows 2/0 (wrapped) the second.
    let frame = term.frame(&pixels, 1, 3, 2, 2);
    let first = cell((0, 0, 0), (255, 255, 255)).repeat(2);
    let second = cell((9, 9, 9), (0, 0, 0)).repeat(2);
    assert_eq!(frame, first.clone() + &second);
    assert_eq!(term.row(&pixels, 1, 3, 0, 2), first);
    assert_eq!(term.row(&pixels, 1, 3, 1, 2), second);
    assert_eq!(term.frame(&pixels, 1, 3, 2, 0), "");
}

#[test]
fn ascii_row_and_frame_pick_ramp_chars() {
    let term = AsciiTerminal::with_size(4, 2);
    let shades = vec![0, 10, 4];
    assert_eq!(term.row(&shades, 3, 1, 0, 4), " &+ ");
    assert_eq!(term.row(&shades, 3, 1, 7, 2), " &");
    assert_eq!(term.frame(&shades, 3, 1, 3, 2), " &+ &+");
    assert_eq!(term.frame(&shades, 3, 1, 0, 5), "");
}
