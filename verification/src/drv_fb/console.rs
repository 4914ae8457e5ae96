//! A text console of cells of 8 by 16 pixels. It holds only a cursor; the pixels
//! are the caller's.

use vstd::prelude::*;

use crate::bytes;

verus! {

pub const GLYPH_W: usize = 8;

pub const GLYPH_H: usize = 16;

/// Green on black; green is the middle byte in either channel order.
pub const FG: u32 = 0x0000_ff00;

pub const BG: u32 = 0x0000_0000;

/// A font of 8 by 16 pixel glyphs: a header, which states its own length, and
/// sixteen bytes for each glyph.
#[derive(Clone, Copy, Debug)]
pub struct Font<'a> {
    data: &'a [u8],
}

/// The header's length, as the header states it.
pub open spec fn header_len(data: Seq<u8>) -> int {
    bytes::le32(data, 8)
}

/// A font with at least one glyph, of the size that the console draws.
pub open spec fn is_font(data: Seq<u8>) -> bool {
    data.len() >= 24 && bytes::le32(data, 20) == 16 && header_len(data) + 16 <= data.len()
}

/// The character whose glyph is drawn for a byte.
pub open spec fn drawn(ch: u8) -> int {
    if 0x20 <= ch <= 0x7e {
        ch as int
    } else {
        0x3f
    }
}

/// The sixteen rows of a byte's glyph; the first glyph's where the font is too
/// short.
pub open spec fn glyph(data: Seq<u8>, ch: u8) -> Seq<u8> {
    let start = header_len(data) + drawn(ch) * 16;
    if start + 16 <= data.len() {
        data.subrange(start, start + 16)
    } else {
        data.subrange(header_len(data), header_len(data) + 16)
    }
}

impl<'a> Font<'a> {
    pub closed spec fn view(&self) -> Seq<u8> {
        self.data@
    }

    /// Takes a font file. `None` for one that is not of the console's size.
    pub fn new(data: &'a [u8]) -> (f: Option<Font<'a>>)
        ensures
            f is Some <==> is_font(data@),
            f matches Some(font) ==> font@ == data@,
    {
        if data.len() < 24 || bytes::read_u32(data, 20) != 16 {
            return None;
        }
        let header: usize = bytes::read_u32(data, 8) as usize;
        if header > data.len() - 16 {
            return None;
        }
        Some(Font { data })
    }

    /// The rows of a byte's glyph.
    pub fn glyph_rows(&self, ch: u8) -> (r: &'a [u8])
        requires
            is_font(self@),
        ensures
            r@ == glyph(self@, ch),
            r@.len() == 16,
    {
        let header: usize = bytes::read_u32(self.data, 8) as usize;
        let index: usize = if ch >= 0x20 && ch <= 0x7e {
            ch as usize
        } else {
            0x3f
        };
        let room: usize = self.data.len() - header;
        if index * 16 + 16 <= room {
            let start: usize = header + index * 16;
            &self.data[start..start + 16]
        } else {
            &self.data[header..header + 16]
        }
    }
}

/// The bit of a glyph row for a column, leftmost first.
pub open spec fn lit(row: u8, x: int) -> bool {
    row as int / power(7 - x) % 2 == 1
}

/// A small power of two.
pub open spec fn power(n: int) -> int {
    if n <= 0 {
        1
    } else if n == 1 {
        2
    } else if n == 2 {
        4
    } else if n == 3 {
        8
    } else if n == 4 {
        16
    } else if n == 5 {
        32
    } else if n == 6 {
        64
    } else {
        128
    }
}

fn is_lit(row: u8, x: usize) -> (r: bool)
    requires
        x < 8,
    ensures
        r == lit(row, x as int),
{
    let d: u8 = if x == 0 {
        128
    } else if x == 1 {
        64
    } else if x == 2 {
        32
    } else if x == 3 {
        16
    } else if x == 4 {
        8
    } else if x == 5 {
        4
    } else if x == 6 {
        2
    } else {
        1
    };
    row / d % 2 == 1
}

/// A framebuffer's shape in pixels, and the cells that fit it.
#[verifier::ext_equal]
pub struct Shape {
    pub len: int,
    pub stride: int,
    pub cols: int,
    pub rows: int,
}

/// The pixels and the cursor.
#[verifier::ext_equal]
pub struct Screen {
    pub px: Seq<u32>,
    pub col: int,
    pub row: int,
}

/// A console that can paint: its extent is not empty, at least one cell fits it,
/// and the framebuffer holds all of it.
pub open spec fn can_paint(g: Shape, s: Screen) -> bool {
    0 < g.len <= s.px.len() && g.cols > 0 && g.rows > 0
}

/// Where pixel `k` of a glyph lies, counted row by row, for the cell at a place.
pub open spec fn place(g: Shape, col: int, row: int, k: int) -> int {
    (row * 16 + k / 8) * g.stride + col * 8 + k % 8
}

/// The colour of pixel `k` of a glyph.
pub open spec fn colour(rows: Seq<u8>, k: int) -> u32 {
    if lit(rows[k / 8], k % 8) {
        FG
    } else {
        BG
    }
}

/// The first `k` pixels of a glyph are drawn. Pixels past the extent are left
/// out.
pub open spec fn blitted(
    px: Seq<u32>,
    g: Shape,
    rows: Seq<u8>,
    col: int,
    row: int,
    k: int,
) -> Seq<u32>
    decreases k,
{
    if k <= 0 {
        px
    } else {
        let p = blitted(px, g, rows, col, row, k - 1);
        let at = place(g, col, row, k - 1);
        if at < g.len {
            p.update(at, colour(rows, k - 1))
        } else {
            p
        }
    }
}

/// Every line of text moves up by one, and the last becomes blank.
pub open spec fn scrolled(px: Seq<u32>, g: Shape) -> Seq<u32> {
    Seq::new(
        px.len(),
        |i: int|
            if i < (g.rows - 1) * 16 * g.stride {
                px[i + 16 * g.stride]
            } else if i < g.rows * 16 * g.stride {
                BG
            } else {
                px[i]
            },
    )
}

/// The cursor goes to the start of the next line; at the bottom, the text
/// scrolls.
pub open spec fn next_line(g: Shape, s: Screen) -> Screen {
    if s.row + 1 >= g.rows {
        Screen { px: scrolled(s.px, g), col: 0, row: g.rows - 1 }
    } else {
        Screen { col: 0, row: s.row + 1, ..s }
    }
}

/// A glyph is drawn at the cursor, which moves right; past the right edge it
/// first goes to the next line.
pub open spec fn draw(g: Shape, font: Seq<u8>, s: Screen, b: u8) -> Screen {
    let at = if s.col >= g.cols {
        next_line(g, s)
    } else {
        s
    };
    Screen {
        px: blitted(at.px, g, glyph(font, b), at.col, at.row, 128),
        col: at.col + 1,
        row: at.row,
    }
}

/// What one byte does. A console that cannot paint ignores it.
pub open spec fn after_byte(g: Shape, font: Seq<u8>, s: Screen, b: u8) -> Screen {
    if !can_paint(g, s) {
        s
    } else if b == 0x0a {
        next_line(g, s)
    } else if b == 0x0d {
        Screen { col: 0, ..s }
    } else if b == 0x08 {
        Screen {
            col: if s.col > 0 {
                s.col - 1
            } else {
                s.col
            },
            ..s
        }
    } else {
        draw(g, font, s, b)
    }
}

/// What a run of bytes does.
pub open spec fn after_bytes(g: Shape, font: Seq<u8>, s: Screen, text: Seq<u8>) -> Screen
    decreases text.len(),
{
    if text.len() == 0 {
        s
    } else {
        after_byte(g, font, after_bytes(g, font, s, text.drop_last()), text.last())
    }
}

/// The extent filled with the background, and the cursor at its start.
pub open spec fn cleared(g: Shape, s: Screen) -> Screen {
    if !can_paint(g, s) {
        s
    } else {
        Screen {
            px: Seq::new(
                s.px.len(),
                |i: int|
                    if i < g.len {
                        BG
                    } else {
                        s.px[i]
                    },
            ),
            col: 0,
            row: 0,
        }
    }
}

/// A text console.
#[derive(Clone, Copy, Debug, PartialEq, Eq, Structural)]
pub struct Console {
    len_px: usize,
    stride: usize,
    cols: usize,
    rows: usize,
    col: usize,
    row: usize,
}

/// The shape of a framebuffer. A stride of zero stands for the width; an extent
/// that does not fit a machine word is none at all.
pub open spec fn shape_of(width: int, height: int, stride: int) -> Shape {
    let stride = if stride == 0 {
        width
    } else {
        stride
    };
    Shape {
        len: if stride * height <= usize::MAX {
            stride * height
        } else {
            0
        },
        stride,
        cols: width / 8,
        rows: height / 16,
    }
}

impl Console {
    /// The shape of the framebuffer.
    pub closed spec fn shape(self) -> Shape {
        Shape {
            len: self.len_px as int,
            stride: self.stride as int,
            cols: self.cols as int,
            rows: self.rows as int,
        }
    }

    /// The pixels with the cursor.
    pub closed spec fn on(self, px: Seq<u32>) -> Screen {
        Screen { px, col: self.col as int, row: self.row as int }
    }

    /// The cursor is on the grid, or just past the end of a line; every line's
    /// pixels lie in the extent.
    pub closed spec fn wf(self) -> bool {
        &&& self.col <= self.cols
        &&& self.rows > 0 ==> self.row < self.rows
        &&& self.cols <= usize::MAX / 8
        &&& self.rows <= usize::MAX / 16
        &&& self.len_px > 0 ==> self.rows * 16 * self.stride <= self.len_px
    }

    /// A console on a framebuffer, which is cleared.
    pub fn new(px: &mut [u32], width_px: usize, height_px: usize, stride: usize) -> (c: Console)
        ensures
            c.wf(),
            c.shape() == shape_of(width_px as int, height_px as int, stride as int),
            c.on(final(px)@) == cleared(
                c.shape(),
                Screen { px: old(px)@, col: 0, row: 0 },
            ),
    {
        let stride: usize = if stride == 0 {
            width_px
        } else {
            stride
        };
        let len_px: usize = match stride.checked_mul(height_px) {
            Some(n) => n,
            None => 0,
        };
        let rows: usize = height_px / GLYPH_H;
        proof {
            assert(rows * 16 * stride <= height_px * stride) by (nonlinear_arith)
                requires
                    rows * 16 <= height_px,
                    stride >= 0,
            ;
            assert(height_px * stride == stride * height_px) by (nonlinear_arith);
        }
        let mut con: Console = Console {
            len_px,
            stride,
            cols: width_px / GLYPH_W,
            rows,
            col: 0,
            row: 0,
        };
        con.clear(px);
        con
    }

    /// Whether the console can paint on a framebuffer.
    fn is_renderable(&self, px: &[u32]) -> (r: bool)
        ensures
            r == can_paint(self.shape(), self.on(px@)),
    {
        self.len_px > 0 && self.len_px <= px.len() && self.cols > 0 && self.rows > 0
    }

    /// Fills the extent with the background.
    pub fn clear(&mut self, px: &mut [u32])
        requires
            old(self).wf(),
        ensures
            final(self).wf(),
            final(self).shape() == old(self).shape(),
            final(self).on(final(px)@) == cleared(old(self).shape(), old(self).on(old(px)@)),
    {
        if !self.is_renderable(px) {
            return;
        }
        let ghost before = px@;
        let mut i: usize = 0;
        while i < self.len_px
            invariant
                i <= self.len_px <= px@.len(),
                px@.len() == before.len(),
                forall|j: int| 0 <= j < i ==> px@[j] == BG,
                forall|j: int| i <= j < px@.len() ==> px@[j] == before[j],
                *self == *old(self),
            decreases self.len_px - i,
        {
            px[i] = BG;
            i += 1;
        }
        self.col = 0;
        self.row = 0;
        assert(px@ =~= cleared(old(self).shape(), old(self).on(before)).px);
    }

    /// Draws one glyph at the cursor.
    fn blit_glyph(&self, px: &mut [u32], rows: &[u8])
        requires
            self.wf(),
            self.len_px <= old(px)@.len(),
            self.col < self.cols,
            self.row < self.rows,
            rows@.len() == 16,
        ensures
            final(px)@ == blitted(
                old(px)@,
                self.shape(),
                rows@,
                self.col as int,
                self.row as int,
                128,
            ),
    {
        let ghost before = px@;
        let ghost g = self.shape();
        let mut ry: usize = 0;
        while ry < GLYPH_H
            invariant
                ry <= 16,
                g == self.shape(),
                self.wf(),
                self.col < self.cols,
                self.row < self.rows,
                rows@.len() == 16,
                px@.len() == before.len(),
                self.len_px <= px@.len(),
                px@ == blitted(before, g, rows@, self.col as int, self.row as int, ry * 8),
            decreases 16 - ry,
        {
            let bits: u8 = rows[ry];
            let py: usize = self.row * GLYPH_H + ry;
            let start: Option<usize> = match py.checked_mul(self.stride) {
                None => None,
                Some(n) => n.checked_add(self.col * GLYPH_W),
            };
            proof {
                assert(py as int * self.stride as int >= 0) by (nonlinear_arith)
                    requires
                        py >= 0,
                        self.stride >= 0,
                ;
            }
            let mut rx: usize = 0;
            while rx < GLYPH_W
                invariant
                    rx <= 8,
                    ry < 16,
                    g == self.shape(),
                    self.wf(),
                    self.col < self.cols,
                    self.row < self.rows,
                    rows@.len() == 16,
                    bits == rows@[ry as int],
                    py == self.row * 16 + ry,
                    px@.len() == before.len(),
                    self.len_px <= px@.len(),
                    start matches Some(n) ==> n == py * self.stride + self.col * 8,
                    start is None ==> py * self.stride + self.col * 8 > usize::MAX,
                    py * self.stride >= 0,
                    px@ == blitted(
                        before,
                        g,
                        rows@,
                        self.col as int,
                        self.row as int,
                        ry * 8 + rx,
                    ),
                decreases 8 - rx,
            {
                let ghost k = ry * 8 + rx;
                proof {
                    assert(k / 8 == ry && k % 8 == rx);
                    assert(place(g, self.col as int, self.row as int, k) == py * self.stride
                        + self.col * 8 + rx);
                }
                let on: bool = is_lit(bits, rx);
                match start {
                    None => {},
                    Some(n) => {
                        if n < self.len_px && rx < self.len_px - n {
                            px[n + rx] = if on {
                                FG
                            } else {
                                BG
                            };
                        }
                    },
                }
                rx += 1;
                assert(px@ =~= blitted(
                    before,
                    g,
                    rows@,
                    self.col as int,
                    self.row as int,
                    k + 1,
                ));
            }
            ry += 1;
        }
    }

    /// Renders one byte: a printable character is drawn and the cursor moves on;
    /// newline, carriage return and backspace only move it; anything else is
    /// drawn as a question mark.
    pub fn write_byte(&mut self, px: &mut [u32], font: &Font, b: u8)
        requires
            old(self).wf(),
            is_font(font@),
        ensures
            final(self).wf(),
            final(self).shape() == old(self).shape(),
            final(px)@.len() == old(px)@.len(),
            final(self).on(final(px)@) == after_byte(
                old(self).shape(),
                font@,
                old(self).on(old(px)@),
                b,
            ),
    {
        if !self.is_renderable(px) {
            return;
        }
        if b == 0x0a {
            self.newline(px);
        } else if b == 0x0d {
            self.col = 0;
        } else if b == 0x08 {
            if self.col > 0 {
                self.col = self.col - 1;
            }
        } else {
            if self.col >= self.cols {
                self.newline(px);
            }
            let rows: &[u8] = font.glyph_rows(b);
            let ghost drawn_on = px@;
            self.blit_glyph(px, rows);
            proof {
                lemma_blit_len(
                    drawn_on,
                    self.shape(),
                    rows@,
                    self.col as int,
                    self.row as int,
                    128,
                );
            }
            self.col = self.col + 1;
        }
    }

    /// Renders a run of bytes.
    pub fn write(&mut self, px: &mut [u32], font: &Font, text: &[u8])
        requires
            old(self).wf(),
            is_font(font@),
        ensures
            final(self).wf(),
            final(self).shape() == old(self).shape(),
            final(px)@.len() == old(px)@.len(),
            final(self).on(final(px)@) == after_bytes(
                old(self).shape(),
                font@,
                old(self).on(old(px)@),
                text@,
            ),
    {
        let ghost first = self.on(px@);
        let mut i: usize = 0;
        assert(text@.subrange(0, 0) =~= Seq::empty());
        while i < text.len()
            invariant
                i <= text@.len(),
                self.wf(),
                is_font(font@),
                self.shape() == old(self).shape(),
                px@.len() == old(px)@.len(),
                self.on(px@) == after_bytes(
                    old(self).shape(),
                    font@,
                    first,
                    text@.subrange(0, i as int),
                ),
            decreases text@.len() - i,
        {
            self.write_byte(px, font, text[i]);
            i += 1;
            assert(text@.subrange(0, i as int).drop_last() =~= text@.subrange(0, i - 1));
        }
        assert(text@.subrange(0, i as int) =~= text@);
    }

    fn newline(&mut self, px: &mut [u32])
        requires
            old(self).wf(),
            can_paint(old(self).shape(), old(self).on(old(px)@)),
        ensures
            final(self).wf(),
            final(self).shape() == old(self).shape(),
            final(px)@.len() == old(px)@.len(),
            final(self).on(final(px)@) == next_line(old(self).shape(), old(self).on(old(px)@)),
            final(self).col == 0,
    {
        self.col = 0;
        if self.row + 1 >= self.rows {
            self.scroll(px);
        } else {
            self.row = self.row + 1;
        }
    }

    /// Moves the text up by one line and clears the last.
    fn scroll(&mut self, px: &mut [u32])
        requires
            old(self).wf(),
            can_paint(old(self).shape(), old(self).on(old(px)@)),
        ensures
            final(self).wf(),
            final(self).shape() == old(self).shape(),
            final(px)@ == scrolled(old(px)@, old(self).shape()),
            final(self).col == 0,
            final(self).row == final(self).rows - 1,
    {
        let ghost before = px@;
        let ghost g = self.shape();
        proof {
            let r = self.rows as int;
            let s = self.stride as int;
            assert((r - 1) * 16 * s + 16 * s == r * 16 * s) by (nonlinear_arith);
            assert((r - 1) * 16 * s >= 0) by (nonlinear_arith)
                requires
                    r >= 1,
                    s >= 0,
            ;
            assert(16 * s >= 0);
        }
        let shift: usize = GLYPH_H * self.stride;
        let bottom: usize = (self.rows - 1) * GLYPH_H * self.stride;
        let mut i: usize = 0;
        while i < bottom
            invariant
                i <= bottom,
                bottom + shift <= self.len_px <= px@.len(),
                px@.len() == before.len(),
                forall|j: int| 0 <= j < i ==> px@[j] == before[j + shift],
                forall|j: int| i <= j < px@.len() ==> px@[j] == before[j],
                *self == *old(self),
            decreases bottom - i,
        {
            px[i] = px[i + shift];
            i += 1;
        }
        let end: usize = bottom + shift;
        while i < end
            invariant
                bottom <= i <= end,
                end == bottom + shift,
                end <= self.len_px <= px@.len(),
                px@.len() == before.len(),
                forall|j: int| 0 <= j < bottom ==> px@[j] == before[j + shift],
                forall|j: int| bottom <= j < i ==> px@[j] == BG,
                forall|j: int| i <= j < px@.len() ==> px@[j] == before[j],
                *self == *old(self),
            decreases end - i,
        {
            px[i] = BG;
            i += 1;
        }
        assert(px@ =~= scrolled(before, g));
        self.col = 0;
        self.row = self.rows - 1;
    }
}

proof fn lemma_place_bounds(g: Shape, col: int, row: int, k: int)
    requires
        0 <= col,
        0 <= row,
        0 <= k,
        0 <= g.stride,
    ensures
        place(g, col, row, k) >= 0,
{
    assert((row * 16 + k / 8) * g.stride >= 0) by (nonlinear_arith)
        requires
            row * 16 + k / 8 >= 0,
            g.stride >= 0,
    ;
}

proof fn lemma_blit_len(px: Seq<u32>, g: Shape, rows: Seq<u8>, col: int, row: int, k: int)
    requires
        0 <= col,
        0 <= row,
        0 <= g.stride,
        g.len <= px.len(),
    ensures
        blitted(px, g, rows, col, row, k).len() == px.len(),
    decreases k,
{
    if k > 0 {
        lemma_blit_len(px, g, rows, col, row, k - 1);
        lemma_place_bounds(g, col, row, k - 1);
    }
}

/// A shape whose lines hold every cell, and whose extent holds every line.
pub open spec fn is_roomy(g: Shape) -> bool {
    &&& g.cols > 0
    &&& g.rows > 0
    &&& g.stride >= g.cols * 8
    &&& g.rows * 16 * g.stride <= g.len
}

/// The pixel at column `x` and line `y`.
pub open spec fn pixel(g: Shape, x: int, y: int) -> int {
    y * g.stride + x
}

/// The cell at a place shows a character: its glyph, pixel by pixel.
pub open spec fn shows(
    px: Seq<u32>,
    g: Shape,
    font: Seq<u8>,
    col: int,
    row: int,
    ch: u8,
) -> bool {
    forall|x: int, y: int|
        0 <= x < 8 && 0 <= y < 16 ==> px[#[trigger] pixel(g, col * 8 + x, row * 16 + y)] == colour(
            glyph(font, ch),
            y * 8 + x,
        )
}

/// Two places on a line of pixels are different pixels.
proof fn lemma_pixels_differ(g: Shape, x: int, y: int, u: int, v: int)
    requires
        0 <= x < g.stride,
        0 <= u < g.stride,
        x != u || y != v,
    ensures
        pixel(g, x, y) != pixel(g, u, v),
{
    let s = g.stride;
    if y < v {
        assert(v * s >= y * s + s) by (nonlinear_arith)
            requires
                v >= y + 1,
                s > 0,
        ;
    } else if y > v {
        assert(y * s >= v * s + s) by (nonlinear_arith)
            requires
                y >= v + 1,
                s > 0,
        ;
    }
}

/// A pixel of a cell lies in the extent.
proof fn lemma_pixel_in_extent(g: Shape, x: int, y: int)
    requires
        is_roomy(g),
        0 <= x < g.cols * 8,
        0 <= y < g.rows * 16,
    ensures
        0 <= pixel(g, x, y) < g.len,
        x < g.stride,
{
    let s = g.stride;
    assert(y * s + s <= g.rows * 16 * s) by (nonlinear_arith)
        requires
            y + 1 <= g.rows * 16,
            s >= 0,
    ;
    assert(y * s >= 0) by (nonlinear_arith)
        requires
            y >= 0,
            s >= 0,
    ;
}

/// What a glyph's first `k` pixels leave behind.
proof fn lemma_blit_pixels(px: Seq<u32>, g: Shape, rows: Seq<u8>, col: int, row: int, k: int)
    requires
        is_roomy(g),
        g.len <= px.len(),
        0 <= col < g.cols,
        0 <= row < g.rows,
        0 <= k <= 128,
    ensures
        blitted(px, g, rows, col, row, k).len() == px.len(),
        forall|x: int, y: int|
            0 <= x < 8 && 0 <= y < 16 && y * 8 + x < k ==> blitted(
                px,
                g,
                rows,
                col,
                row,
                k,
            )[#[trigger] pixel(g, col * 8 + x, row * 16 + y)] == colour(rows, y * 8 + x),
        forall|x: int, y: int|
            0 <= x < g.cols * 8 && 0 <= y < g.rows * 16 && !(col * 8 <= x < col * 8 + 8 && row * 16
                <= y < row * 16 + 16) ==> blitted(px, g, rows, col, row, k)[#[trigger] pixel(
                g,
                x,
                y,
            )] == px[pixel(g, x, y)],
    decreases k,
{
    if k > 0 {
        lemma_blit_pixels(px, g, rows, col, row, k - 1);
        let p = blitted(px, g, rows, col, row, k - 1);
        let n = blitted(px, g, rows, col, row, k);
        let dx = (k - 1) % 8;
        let dy = (k - 1) / 8;
        let x0 = col * 8 + dx;
        let y0 = row * 16 + dy;
        let at = place(g, col, row, k - 1);
        assert(at == pixel(g, x0, y0));
        lemma_pixel_in_extent(g, x0, y0);
        assert forall|x: int, y: int|
            0 <= x < 8 && 0 <= y < 16 && y * 8 + x < k implies n[#[trigger] pixel(
            g,
            col * 8 + x,
            row * 16 + y,
        )] == colour(rows, y * 8 + x) by {
            let i = pixel(g, col * 8 + x, row * 16 + y);
            lemma_pixel_in_extent(g, col * 8 + x, row * 16 + y);
            if x == dx && y == dy {
                assert(y * 8 + x == k - 1);
            } else {
                assert(y * 8 + x < k - 1);
                lemma_pixels_differ(g, col * 8 + x, row * 16 + y, x0, y0);
            }
        }
        assert forall|x: int, y: int|
            0 <= x < g.cols * 8 && 0 <= y < g.rows * 16 && !(col * 8 <= x < col * 8 + 8 && row * 16
                <= y < row * 16 + 16) implies n[#[trigger] pixel(g, x, y)] == px[pixel(
            g,
            x,
            y,
        )] by {
            lemma_pixel_in_extent(g, x, y);
            lemma_pixels_differ(g, x, y, x0, y0);
        }
    }
}

/// A character that is drawn is shown in its cell, and every other cell shows
/// what it showed before.
pub proof fn drawing_changes_one_cell(
    g: Shape,
    font: Seq<u8>,
    s: Screen,
    b: u8,
    col: int,
    row: int,
    ch: u8,
)
    requires
        is_roomy(g),
        g.len <= s.px.len(),
        0 <= s.col < g.cols,
        0 <= s.row < g.rows,
        0 <= col < g.cols,
        0 <= row < g.rows,
    ensures
        ({
            let n = draw(g, font, s, b);
            &&& n.col == s.col + 1 && n.row == s.row
            &&& shows(n.px, g, font, s.col, s.row, b)
            &&& (col != s.col || row != s.row) && shows(s.px, g, font, col, row, ch) ==> shows(
                n.px,
                g,
                font,
                col,
                row,
                ch,
            )
        }),
{
    let rows = glyph(font, b);
    let n = draw(g, font, s, b);
    lemma_blit_pixels(s.px, g, rows, s.col, s.row, 128);
    if (col != s.col || row != s.row) && shows(s.px, g, font, col, row, ch) {
        assert forall|x: int, y: int| 0 <= x < 8 && 0 <= y < 16 implies n.px[#[trigger] pixel(
            g,
            col * 8 + x,
            row * 16 + y,
        )] == colour(glyph(font, ch), y * 8 + x) by {
            let i = pixel(g, col * 8 + x, row * 16 + y);
            assert(s.px[i] == colour(glyph(font, ch), y * 8 + x));
        }
    }
}

/// Scrolling moves what each line shows to the line above it and blanks the last
/// line.
pub proof fn scrolling_moves_lines_up(
    g: Shape,
    font: Seq<u8>,
    px: Seq<u32>,
    col: int,
    row: int,
    ch: u8,
)
    requires
        is_roomy(g),
        g.len <= px.len(),
        0 <= col < g.cols,
        0 <= row < g.rows,
    ensures
        row + 1 < g.rows && shows(px, g, font, col, row + 1, ch) ==> shows(
            scrolled(px, g),
            g,
            font,
            col,
            row,
            ch,
        ),
        forall|x: int, y: int|
            0 <= x < g.cols * 8 && (g.rows - 1) * 16 <= y < g.rows * 16 ==> scrolled(
                px,
                g,
            )[#[trigger] pixel(g, x, y)] == BG,
{
    let s = g.stride;
    let n = scrolled(px, g);
    let bottom = (g.rows - 1) * 16 * s;
    if row + 1 < g.rows && shows(px, g, font, col, row + 1, ch) {
        assert forall|x: int, y: int| 0 <= x < 8 && 0 <= y < 16 implies n[#[trigger] pixel(
            g,
            col * 8 + x,
            row * 16 + y,
        )] == colour(glyph(font, ch), y * 8 + x) by {
            let i = pixel(g, col * 8 + x, row * 16 + y);
            let above = pixel(g, col * 8 + x, (row + 1) * 16 + y);
            lemma_pixel_in_extent(g, col * 8 + x, row * 16 + y);
            assert((row * 16 + y) * s + 16 * s == ((row + 1) * 16 + y) * s) by (nonlinear_arith);
            assert((row * 16 + y) * s + s <= bottom) by (nonlinear_arith)
                requires
                    row * 16 + y + 1 <= (g.rows - 1) * 16,
                    s >= 0,
                    bottom == (g.rows - 1) * 16 * s,
            ;
            assert(px[above] == colour(glyph(font, ch), y * 8 + x));
        }
    }
    assert forall|x: int, y: int|
        0 <= x < g.cols * 8 && (g.rows - 1) * 16 <= y < g.rows * 16 implies n[#[trigger] pixel(
        g,
        x,
        y,
    )] == BG by {
        lemma_pixel_in_extent(g, x, y);
        assert(y * s >= bottom) by (nonlinear_arith)
            requires
                y >= (g.rows - 1) * 16,
                s >= 0,
                bottom == (g.rows - 1) * 16 * s,
        ;
        assert(y * s + s <= g.rows * 16 * s) by (nonlinear_arith)
            requires
                y + 1 <= g.rows * 16,
                s >= 0,
        ;
    }
}

/// Backspace, blank and backspace leave the cursor on a blank cell, where a
/// character was: that is how a typed character is erased.
pub proof fn backspace_blank_backspace_erases(g: Shape, font: Seq<u8>, s: Screen)
    requires
        is_roomy(g),
        g.len <= s.px.len(),
        0 < s.col <= g.cols,
        0 <= s.row < g.rows,
    ensures
        ({
            let n = after_bytes(g, font, s, seq![0x08u8, 0x20, 0x08]);
            &&& n.col == s.col - 1
            &&& n.row == s.row
            &&& shows(n.px, g, font, s.col - 1, s.row, 0x20)
        }),
{
    assert(g.rows * 16 * g.stride > 0) by (nonlinear_arith)
        requires
            g.rows > 0,
            g.stride > 0,
    ;
    let a = seq![0x08u8];
    let b = seq![0x08u8, 0x20];
    let c = seq![0x08u8, 0x20, 0x08];
    assert(a.drop_last() =~= Seq::empty());
    assert(b.drop_last() =~= a);
    assert(c.drop_last() =~= b);
    let s0 = after_bytes(g, font, s, Seq::empty());
    assert(s0 == s);
    let s1 = after_bytes(g, font, s, a);
    assert(s1 == (Screen { col: s.col - 1, ..s }));
    let s2 = after_bytes(g, font, s, b);
    lemma_blit_len(s1.px, g, glyph(font, 0x20), s1.col, s1.row, 128);
    drawing_changes_one_cell(g, font, s1, 0x20, s1.col, s1.row, 0x20);
    assert(s2 == draw(g, font, s1, 0x20));
}

/// A byte's glyph is read from the font: for a byte from 0x20 to 0x7e, row `y` is the byte that
/// stands `16 * ch + y` bytes behind the header, whose length is in the header's bytes 8 to 11, low
/// byte first. All other bytes are drawn like byte 0x3f, and a font without the glyph gives its
/// first one.
pub proof fn glyphs_come_from_the_font(font: Seq<u8>, ch: u8, y: int)
    requires
        font.len() >= 24,
        0 <= y < 16,
    ensures
        ({
            let h = font[8] + 0x100 * font[9] + 0x1_0000 * font[10] + 0x100_0000 * font[11];
            &&& h + 16 <= font.len() ==> glyph(font, ch).len() == 16
            &&& 0x20 <= ch && ch <= 0x7e && font.len() >= h + 16 * ch + 16 ==> glyph(font, ch)[y]
                == font[h + 16 * ch + y]
            &&& (ch < 0x20 || ch > 0x7e) && font.len() >= h + 16 * 0x3f + 16 ==> glyph(
                font,
                ch,
            )[y] == font[h + 16 * 0x3f + y]
            &&& 0x20 <= ch && ch <= 0x7e && font.len() < h + 16 * ch + 16 && h + 16 <= font.len()
                ==> glyph(font, ch)[y] == font[h + y]
            &&& (ch < 0x20 || ch > 0x7e) && font.len() < h + 16 * 0x3f + 16 && h + 16 <= font.len()
                ==> glyph(font, ch)[y] == font[h + y]
        }),
{
}

/// A font is taken just where it is 24 bytes or longer, its bytes 20 to 23 state a glyph of 16
/// bytes, and one glyph fits behind its header.
pub proof fn fonts_state_their_size(data: Seq<u8>)
    ensures
        is_font(data) <==> data.len() >= 24 && data[20] == 16 && data[21] == 0 && data[22] == 0
            && data[23] == 0 && data[8] + 0x100 * data[9] + 0x1_0000 * data[10] + 0x100_0000
            * data[11] + 16 <= data.len(),
{
}

/// The leftmost pixel of a glyph's row is the highest bit of its byte.
pub proof fn rows_are_read_from_the_highest_bit(row: u8)
    ensures
        lit(row, 0) <==> row as int / 128 % 2 == 1,
        lit(row, 1) <==> row as int / 64 % 2 == 1,
        lit(row, 2) <==> row as int / 32 % 2 == 1,
        lit(row, 3) <==> row as int / 16 % 2 == 1,
        lit(row, 4) <==> row as int / 8 % 2 == 1,
        lit(row, 5) <==> row as int / 4 % 2 == 1,
        lit(row, 6) <==> row as int / 2 % 2 == 1,
        lit(row, 7) <==> row as int % 2 == 1,
{
}

proof fn lemma_blit_leaves(
    px: Seq<u32>,
    g: Shape,
    rows: Seq<u8>,
    col: int,
    row: int,
    k: int,
    i: int,
)
    requires
        is_roomy(g),
        g.len <= px.len(),
        0 <= col < g.cols,
        0 <= row < g.rows,
        0 <= k <= 128,
        0 <= i < px.len(),
        forall|x: int, y: int|
            0 <= x < 8 && 0 <= y < 16 ==> #[trigger] pixel(g, col * 8 + x, row * 16 + y) != i,
    ensures
        blitted(px, g, rows, col, row, k)[i] == px[i],
    decreases k,
{
    if k > 0 {
        lemma_blit_leaves(px, g, rows, col, row, k - 1, i);
        lemma_blit_pixels(px, g, rows, col, row, k - 1);
        let x = (k - 1) % 8;
        let y = (k - 1) / 8;
        assert(place(g, col, row, k - 1) == pixel(g, col * 8 + x, row * 16 + y));
        lemma_pixel_in_extent(g, col * 8 + x, row * 16 + y);
    }
}

/// Drawing a character colours the 8 by 16 pixels of the cell at the cursor, green where the bit
/// of the glyph is set and black where it is not, and no other pixel; the cursor moves right by
/// one.
pub proof fn drawing_colours_the_cell(
    g: Shape,
    font: Seq<u8>,
    s: Screen,
    b: u8,
    x: int,
    y: int,
    other: int,
)
    requires
        g.cols > 0 && g.rows > 0,
        g.stride >= g.cols * 8,
        g.rows * 16 * g.stride <= g.len <= s.px.len(),
        0 <= s.col < g.cols,
        0 <= s.row < g.rows,
        b != 0x0a && b != 0x0d && b != 0x08,
        0 <= x < 8,
        0 <= y < 16,
        0 <= other < s.px.len(),
    ensures
        ({
            let n = after_byte(g, font, s, b);
            let at = (s.row * 16 + y) * g.stride + s.col * 8 + x;
            &&& n.col == s.col + 1
            &&& n.row == s.row
            &&& n.px.len() == s.px.len()
            &&& 0 <= at < g.len
            &&& lit(glyph(font, b)[y], x) ==> n.px[at] == 0x0000_ff00
            &&& !lit(glyph(font, b)[y], x) ==> n.px[at] == 0
            &&& (forall|u: int, v: int|
                0 <= u < 8 && 0 <= v < 16 ==> #[trigger] pixel(g, s.col * 8 + u, s.row * 16 + v)
                    != other) ==> n.px[other] == s.px[other]
        }),
{
    assert(g.rows * 16 * g.stride > 0) by (nonlinear_arith)
        requires
            g.rows > 0,
            g.stride > 0,
    ;
    let rows = glyph(font, b);
    lemma_blit_pixels(s.px, g, rows, s.col, s.row, 128);
    let at = pixel(g, s.col * 8 + x, s.row * 16 + y);
    lemma_pixel_in_extent(g, s.col * 8 + x, s.row * 16 + y);
    assert((y * 8 + x) / 8 == y && (y * 8 + x) % 8 == x);
    if forall|u: int, v: int|
        0 <= u < 8 && 0 <= v < 16 ==> #[trigger] pixel(g, s.col * 8 + u, s.row * 16 + v) != other {
        lemma_blit_leaves(s.px, g, rows, s.col, s.row, 128, other);
    }
}

/// How the cursor moves. A line feed takes it to the start of the next line and, on the last one,
/// scrolls; a carriage return takes it to the start of its line and a backspace one cell back. Past
/// the right edge a character goes where it would go after a line feed.
pub proof fn control_bytes_move_the_cursor(g: Shape, font: Seq<u8>, s: Screen, b: u8)
    requires
        0 < g.len <= s.px.len(),
        g.cols > 0 && g.rows > 0,
        0 <= s.col <= g.cols,
        0 <= s.row < g.rows,
    ensures
        s.row < g.rows - 1 ==> after_byte(g, font, s, 0x0a) == (Screen {
            px: s.px,
            col: 0,
            row: s.row + 1,
        }),
        s.row == g.rows - 1 ==> after_byte(g, font, s, 0x0a) == (Screen {
            px: scrolled(s.px, g),
            col: 0,
            row: s.row,
        }),
        after_byte(g, font, s, 0x0d) == (Screen { px: s.px, col: 0, row: s.row }),
        s.col > 0 ==> after_byte(g, font, s, 0x08) == (Screen {
            px: s.px,
            col: s.col - 1,
            row: s.row,
        }),
        s.col == 0 ==> after_byte(g, font, s, 0x08) == s,
        s.col == g.cols && b != 0x0a && b != 0x0d && b != 0x08 ==> after_byte(g, font, s, b)
            == after_byte(g, font, after_byte(g, font, s, 0x0a), b),
{
}

/// A framebuffer that is too small for the console, or has no cell, is never touched.
pub proof fn nothing_is_painted_without_room(g: Shape, font: Seq<u8>, s: Screen, b: u8)
    requires
        g.len <= 0 || g.len > s.px.len() || g.cols <= 0 || g.rows <= 0,
    ensures
        after_byte(g, font, s, b) == s,
        cleared(g, s) == s,
{
}

/// Scrolling moves every pixel up by 16 lines, and makes the last 16 lines of text black. What lies
/// below the last line of text stays.
pub proof fn scrolling_moves_pixels_up(g: Shape, px: Seq<u32>, x: int, y: int, below: int)
    requires
        g.rows > 0,
        g.stride > 0,
        g.rows * 16 * g.stride <= px.len(),
        0 <= x < g.stride,
        0 <= y < g.rows * 16,
        g.rows * 16 * g.stride <= below < px.len(),
    ensures
        scrolled(px, g).len() == px.len(),
        y < (g.rows - 1) * 16 ==> scrolled(px, g)[y * g.stride + x] == px[(y + 16) * g.stride + x],
        y >= (g.rows - 1) * 16 ==> scrolled(px, g)[y * g.stride + x] == 0,
        scrolled(px, g)[below] == px[below],
{
    let s = g.stride;
    let bottom = (g.rows - 1) * 16 * s;
    let end = g.rows * 16 * s;
    assert(y * s >= 0) by (nonlinear_arith)
        requires
            y >= 0,
            s >= 0,
    ;
    assert((y + 16) * s == y * s + 16 * s) by (nonlinear_arith);
    assert(y * s + s <= end) by (nonlinear_arith)
        requires
            y + 1 <= g.rows * 16,
            s >= 0,
            end == g.rows * 16 * s,
    ;
    assert(bottom <= end) by (nonlinear_arith)
        requires
            s >= 0,
            bottom == (g.rows - 1) * 16 * s,
            end == g.rows * 16 * s,
    ;
    if y < (g.rows - 1) * 16 {
        assert(y * s + s <= bottom) by (nonlinear_arith)
            requires
                y + 1 <= (g.rows - 1) * 16,
                s >= 0,
                bottom == (g.rows - 1) * 16 * s,
        ;
    } else {
        assert(y * s >= bottom) by (nonlinear_arith)
            requires
                y >= (g.rows - 1) * 16,
                s >= 0,
                bottom == (g.rows - 1) * 16 * s,
        ;
    }
}

/// Clearing makes every pixel of the extent black, leaves those behind it, and takes the cursor to
/// the first cell.
pub proof fn clearing_blackens_the_extent(g: Shape, s: Screen, i: int)
    requires
        0 < g.len <= s.px.len(),
        g.cols > 0 && g.rows > 0,
        0 <= i < s.px.len(),
    ensures
        cleared(g, s).px.len() == s.px.len(),
        i < g.len ==> cleared(g, s).px[i] == 0,
        i >= g.len ==> cleared(g, s).px[i] == s.px[i],
        cleared(g, s).col == 0,
        cleared(g, s).row == 0,
{
}

/// A console has as many cells of 8 by 16 pixels as fit the framebuffer whole. Without a stride of
/// its own a framebuffer's lines are as long as they are wide, and an extent that no machine word
/// can hold is none.
pub proof fn cells_are_eight_by_sixteen(width: int, height: int, stride: int)
    requires
        width >= 0,
        height >= 0,
        stride >= 0,
    ensures
        ({
            let g = shape_of(width, height, stride);
            &&& 8 * g.cols <= width < 8 * g.cols + 8
            &&& 16 * g.rows <= height < 16 * g.rows + 16
            &&& stride > 0 ==> g.stride == stride
            &&& stride == 0 ==> g.stride == width
            &&& g.stride * height <= usize::MAX ==> g.len == g.stride * height
            &&& g.stride * height > usize::MAX ==> g.len == 0
        }),
{
}

/// A run of bytes does what its bytes do, one after the other: nothing where it is empty, what its
/// byte does where it is one, and the second half starts where the first one ends.
pub proof fn runs_are_written_in_order(g: Shape, font: Seq<u8>, s: Screen, a: Seq<u8>, b: Seq<u8>)
    ensures
        after_bytes(g, font, s, Seq::empty()) == s,
        b.len() == 1 ==> after_bytes(g, font, s, b) == after_byte(g, font, s, b[0]),
        after_bytes(g, font, s, a + b) == after_bytes(g, font, after_bytes(g, font, s, a), b),
    decreases b.len(),
{
    reveal_with_fuel(after_bytes, 2);
    if b.len() == 0 {
        assert(a + b =~= a);
    } else {
        runs_are_written_in_order(g, font, s, a, b.drop_last());
        assert((a + b).drop_last() =~= a + b.drop_last());
        assert((a + b).last() == b.last());
    }
}

/// Text that fits the line shows its characters in order, each in its own cell, and leaves the
/// cursor behind the last.
pub proof fn text_is_shown_in_order(g: Shape, font: Seq<u8>, s: Screen, text: Seq<u8>, i: int)
    requires
        is_roomy(g),
        g.len <= s.px.len(),
        0 <= s.col,
        s.col + text.len() <= g.cols,
        0 <= s.row < g.rows,
        forall|j: int| 0 <= j < text.len() ==> 0x20 <= #[trigger] text[j] && text[j] <= 0x7e,
        0 <= i < text.len(),
    ensures
        ({
            let n = after_bytes(g, font, s, text);
            &&& n.px.len() == s.px.len()
            &&& n.col == s.col + text.len()
            &&& n.row == s.row
            &&& shows(n.px, g, font, s.col + i, s.row, text[i])
        }),
    decreases text.len(),
{
    assert(g.rows * 16 * g.stride > 0) by (nonlinear_arith)
        requires
            g.rows > 0,
            g.stride > 0,
    ;
    let part = text.drop_last();
    let before = after_bytes(g, font, s, part);
    let last = text.last();
    assert(text[text.len() - 1] == last);
    if text.len() == 1 {
        assert(part =~= Seq::empty());
        assert(before == s);
    } else {
        assert forall|j: int| 0 <= j < part.len() implies 0x20 <= #[trigger] part[j] && part[j]
            <= 0x7e by {
            assert(part[j] == text[j]);
        }
        let at = if i < part.len() {
            i
        } else {
            0
        };
        text_is_shown_in_order(g, font, s, part, at);
    }
    lemma_blit_len(before.px, g, glyph(font, last), before.col, before.row, 128);
    drawing_changes_one_cell(g, font, before, last, s.col + i, s.row, text[i]);
    assert(after_bytes(g, font, s, text) == draw(g, font, before, last));
}

/// A cell shows a character where its pixels are the bits of the character's glyph: green for a
/// set bit, black for a clear one.
pub proof fn shown_cells_hold_the_glyph(
    px: Seq<u32>,
    g: Shape,
    font: Seq<u8>,
    col: int,
    row: int,
    ch: u8,
    x: int,
    y: int,
)
    requires
        shows(px, g, font, col, row, ch),
        0 <= x < 8,
        0 <= y < 16,
    ensures
        px[(row * 16 + y) * g.stride + col * 8 + x] == if lit(glyph(font, ch)[y], x) {
            0x0000_ff00u32
        } else {
            0u32
        },
{
    assert(pixel(g, col * 8 + x, row * 16 + y) == (row * 16 + y) * g.stride + col * 8 + x);
    assert((y * 8 + x) / 8 == y && (y * 8 + x) % 8 == x);
}

} // verus!
