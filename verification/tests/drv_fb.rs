//! The framebuffer console.

use kumo_userland::drv_fb::console::{Console, Font, BG, FG, GLYPH_H, GLYPH_W};
use kumo_userland::drv_fb::startup::{FbCall, FbEvent, FbStart, Geometry};

// A small in-memory framebuffer: 24x32 px (3 cols x 2 rows of 8x16 cells).
const W: usize = 24;
const H: usize = 32;
const STRIDE: usize = W;

/// A font of 128 glyphs, each with rows of its own; the blank has none lit.
fn font_data() -> Vec<u8> {
    let mut data = vec![0u8; 32];
    data[0..4].copy_from_slice(&0x864a_b572u32.to_le_bytes());
    data[8..12].copy_from_slice(&32u32.to_le_bytes());
    data[20..24].copy_from_slice(&16u32.to_le_bytes());
    for ch in 0..128u8 {
        for row in 0..16u8 {
            data.push(if ch == b' ' {
                0
            } else {
                ch.rotate_left(row as u32) ^ row
            });
        }
    }
    data
}

fn fresh() -> [u32; W * H] {
    [BG; W * H]
}

/// Assert that glyph-cell `(cx, cy)` holds exactly the bitmap for `ch`.
fn assert_cell(buf: &[u32], ch: u8, cx: usize, cy: usize) {
    let data = font_data();
    let font = Font::new(&data).unwrap();
    let rows = font.glyph_rows(ch);
    for ry in 0..GLYPH_H {
        for rx in 0..GLYPH_W {
            let got = buf[(cy * GLYPH_H + ry) * STRIDE + (cx * GLYPH_W + rx)];
            let want = if (rows[ry] >> (7 - rx)) & 1 != 0 {
                FG
            } else {
                BG
            };
            assert_eq!(
                got, want,
                "pixel mismatch for {:?} at cell ({cx},{cy}) sub ({rx},{ry})",
                ch as char
            );
        }
    }
}

#[test]
fn new_clears_to_background() {
    let mut buf = fresh();
    buf[0] = 0xDEAD_BEEF;
    let _con = Console::new(&mut buf, W, H, STRIDE);
    assert!(buf.iter().all(|&p| p == BG));
}

#[test]
fn renders_one_glyph_exactly() {
    let mut buf = fresh();
    let data = font_data();
    let font = Font::new(&data).unwrap();
    let mut con = Console::new(&mut buf, W, H, STRIDE);
    con.write(&mut buf, &font, b"A");
    assert_cell(&buf, b'A', 0, 0);
    assert_cell(&buf, b' ', 1, 0);
}

#[test]
fn newline_moves_to_next_row_column_zero() {
    let mut buf = fresh();
    let data = font_data();
    let font = Font::new(&data).unwrap();
    let mut con = Console::new(&mut buf, W, H, STRIDE);
    con.write(&mut buf, &font, b"A\nB");
    assert_cell(&buf, b'A', 0, 0);
    assert_cell(&buf, b'B', 0, 1);
}

#[test]
fn carriage_return_overwrites_from_column_zero() {
    let mut buf = fresh();
    let data = font_data();
    let font = Font::new(&data).unwrap();
    let mut con = Console::new(&mut buf, W, H, STRIDE);
    con.write(&mut buf, &font, b"A\rB");
    assert_cell(&buf, b'B', 0, 0);
}

#[test]
fn backspace_moves_left_so_space_can_erase() {
    let mut buf = fresh();
    let data = font_data();
    let font = Font::new(&data).unwrap();
    let mut con = Console::new(&mut buf, W, H, STRIDE);
    con.write(&mut buf, &font, b"AB\x08 \x08C");
    assert_cell(&buf, b'A', 0, 0);
    assert_cell(&buf, b'C', 1, 0);
    assert_cell(&buf, b' ', 2, 0);
}

#[test]
fn wraps_at_right_edge() {
    let mut buf = fresh();
    let data = font_data();
    let font = Font::new(&data).unwrap();
    let mut con = Console::new(&mut buf, W, H, STRIDE);
    con.write(&mut buf, &font, b"123W");
    assert_cell(&buf, b'1', 0, 0);
    assert_cell(&buf, b'2', 1, 0);
    assert_cell(&buf, b'3', 2, 0);
    assert_cell(&buf, b'W', 0, 1);
}

#[test]
fn non_printable_renders_tofu_question_mark() {
    let mut buf = fresh();
    let data = font_data();
    let font = Font::new(&data).unwrap();
    let mut con = Console::new(&mut buf, W, H, STRIDE);
    con.write(&mut buf, &font, &[0x01]);
    assert_cell(&buf, b'?', 0, 0);
}

#[test]
fn scrolls_when_cursor_falls_off_the_bottom() {
    let mut buf = fresh();
    let data = font_data();
    let font = Font::new(&data).unwrap();
    let mut con = Console::new(&mut buf, W, H, STRIDE);
    con.write(&mut buf, &font, b"X\nY\n");
    assert_cell(&buf, b'Y', 0, 0);
    assert_cell(&buf, b' ', 0, 1);
    con.write(&mut buf, &font, b"Z");
    assert_cell(&buf, b'Z', 0, 1);
}

#[test]
fn fonts_of_another_size_are_refused() {
    let data = font_data();
    assert!(Font::new(&data).is_some());
    assert!(Font::new(&data[..40]).is_none());
    let mut tall = font_data();
    tall[20] = 32;
    assert!(Font::new(&tall).is_none());
    assert_eq!(Font::new(&data[..48]).unwrap().glyph_rows(b'A'), &data[32..48]);
}

#[test]
fn nothing_is_drawn_outside_a_short_framebuffer() {
    let data = font_data();
    let font = Font::new(&data).unwrap();
    let mut buf = [7u32; W * H - 1];
    let mut con = Console::new(&mut buf, W, H, STRIDE);
    con.write(&mut buf, &font, b"A");
    assert!(buf.iter().all(|&p| p == 7));
}

#[test]
fn a_line_moves_up_unchanged_when_the_screen_scrolls() {
    let data = font_data();
    let font = Font::new(&data).unwrap();
    let mut buf = fresh();
    let mut con = Console::new(&mut buf, W, H, STRIDE);
    con.write(&mut buf, &font, b"abc\rxyz\nk");
    let below = buf[GLYPH_H * STRIDE..].to_vec();
    con.write(&mut buf, &font, b"\n");
    assert_eq!(&buf[..GLYPH_H * STRIDE], &below[..]);
    assert_cell(&buf, b' ', 0, 1);
}

#[test]
fn the_screen_is_claimed_after_the_port_is_ready() {
    let mut start = FbStart::new();
    assert_eq!(start.call(), FbCall::ReadHandles);
    assert_eq!(start.advance(FbEvent::Handles(1, 0, 3)), b"drv-fb: missing handles\n");

    let mut start = FbStart::new();
    start.advance(FbEvent::Handles(1, 2, 3));
    assert!(matches!(start.call(), FbCall::MapInfo { .. }));
    start.advance(FbEvent::Returned(0));
    assert!(matches!(start.call(), FbCall::ReadInfo { .. }));
    start.advance(FbEvent::Screen(Some(Geometry {
        phys: 0x1000,
        len: 4 * (W * H) as u64,
        width: W as u32,
        height: H as u32,
        stride: STRIDE as u32,
    })));
    assert!(matches!(start.call(), FbCall::Mint { base: 0x1000, .. }));
}
