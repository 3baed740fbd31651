//! The LED-matrix canvas and the chained-display frame protocol.
//!
//! A [`Canvas`] is a `W` by `H` grid of pixels onto which bitmap-font text is
//! rendered.  [`Screen`] packs canvas contents and controller commands into
//! the byte frames that a chain of `N` eight-by-eight display modules
//! expects, two bytes per module per frame; shifting the frames out over the
//! wire is the driver's job.

use vstd::prelude::*;

use crate::font::Font;

verus! {

/// The registers of one display module's controller.
#[derive(Clone, Copy, Debug, PartialEq, Eq, Structural)]
pub enum Command {
    Noop,
    Digit0,
    Digit1,
    Digit2,
    Digit3,
    Digit4,
    Digit5,
    Digit6,
    Digit7,
    DecodeMode,
    Intensity,
    ScanLimit,
    Power,
    DisplayTest,
}

impl Command {
    /// The register's address byte on the wire.
    pub open spec fn spec_code(self) -> u8 {
        match self {
            Command::Noop => 0x00,
            Command::Digit0 => 0x01,
            Command::Digit1 => 0x02,
            Command::Digit2 => 0x03,
            Command::Digit3 => 0x04,
            Command::Digit4 => 0x05,
            Command::Digit5 => 0x06,
            Command::Digit6 => 0x07,
            Command::Digit7 => 0x08,
            Command::DecodeMode => 0x09,
            Command::Intensity => 0x0a,
            Command::ScanLimit => 0x0b,
            Command::Power => 0x0c,
            Command::DisplayTest => 0x0f,
        }
    }

    /// The register's address byte on the wire.
    pub fn code(&self) -> (r: u8)
        ensures
            r == self.spec_code(),
    {
        match self {
            Command::Noop => 0x00,
            Command::Digit0 => 0x01,
            Command::Digit1 => 0x02,
            Command::Digit2 => 0x03,
            Command::Digit3 => 0x04,
            Command::Digit4 => 0x05,
            Command::Digit5 => 0x06,
            Command::Digit6 => 0x07,
            Command::Digit7 => 0x08,
            Command::DecodeMode => 0x09,
            Command::Intensity => 0x0a,
            Command::ScanLimit => 0x0b,
            Command::Power => 0x0c,
            Command::DisplayTest => 0x0f,
        }
    }

    /// The digit register of row `i`, top row first.
    pub fn digit(i: usize) -> (r: Command)
        requires
            i < 8,
        ensures
            r.spec_code() == i + 1,
    {
        match i {
            0 => Command::Digit0,
            1 => Command::Digit1,
            2 => Command::Digit2,
            3 => Command::Digit3,
            4 => Command::Digit4,
            5 => Command::Digit5,
            6 => Command::Digit6,
            _ => Command::Digit7,
        }
    }
}

impl Default for Command {
    fn default() -> (r: Command)
        ensures
            r is Noop,
    {
        Command::Noop
    }
}

/// One register write: the register and its value.
#[derive(Clone, Copy, Debug, PartialEq, Eq, Structural)]
pub struct Order {
    pub command: Command,
    pub data: u8,
}

impl Default for Order {
    fn default() -> (r: Order)
        ensures
            r.command is Noop,
            r.data == 0,
    {
        Order { command: Command::Noop, data: 0 }
    }
}

/// A register write.
pub fn order(command: Command, data: u8) -> (r: Order)
    ensures
        r.command == command,
        r.data == data,
{
    Order { command, data }
}

/// Bit `i` of a row byte, leftmost pixel first.
pub open spec fn line_bit(line: u8, i: int) -> bool {
    (line >> ((7 - i) as u8)) & 1 == 1
}

/// Writing one pixel: out-of-range coordinates change nothing.
pub open spec fn spec_set_pixel(g: Seq<Seq<bool>>, x: int, y: int, val: bool) -> Seq<Seq<bool>> {
    if 0 <= x < g.len() && 0 <= y < g[x].len() {
        g.update(x, g[x].update(y, val))
    } else {
        g
    }
}

/// Writing one row byte at `(x, y)`: up to eight pixels rightwards from `x`,
/// clipped at the right edge; an out-of-range start changes nothing.
pub open spec fn spec_print_line8(g: Seq<Seq<bool>>, x: int, y: int, line: u8) -> Seq<Seq<bool>> {
    if !(0 <= x < g.len()) || !(0 <= y < g[x].len()) {
        g
    } else {
        let n = if g.len() - x < 8 {
            g.len() - x
        } else {
            8
        };
        Seq::new(
            g.len(),
            |xx: int|
                if x <= xx < x + n {
                    g[xx].update(y, line_bit(line, xx - x))
                } else {
                    g[xx]
                },
        )
    }
}

/// Writing the top `rows` rows of the glyph standing for `c`, cursor at
/// `(x, y)`.
pub open spec fn spec_print_rows<const N: usize>(
    g: Seq<Seq<bool>>,
    f: Font<N>,
    x: int,
    y: int,
    c: char,
    rows: nat,
) -> Seq<Seq<bool>>
    decreases rows,
{
    if rows == 0 {
        g
    } else {
        spec_print_line8(
            spec_print_rows(g, f, x, y, c, (rows - 1) as nat),
            x,
            y + rows - 1,
            f.spec_glyph_of(c).spec_data()[rows - 1],
        )
    }
}

/// Rendering `text` with font `f`, cursor starting at `(x, y)` and advancing
/// by each glyph's width; rendering stops at the right edge.
pub open spec fn spec_print_text<const N: usize>(
    g: Seq<Seq<bool>>,
    f: Font<N>,
    x: int,
    y: int,
    text: Seq<char>,
) -> Seq<Seq<bool>>
    decreases text.len(),
{
    if text.len() == 0 || x >= g.len() {
        g
    } else {
        spec_print_text(
            spec_print_rows(g, f, x, y, text[0], f.spec_height() as nat),
            f,
            x + f.spec_glyph_of(text[0]).width,
            y,
            text.drop_first(),
        )
    }
}

/// The byte packing the first `k` of eight pixels rightwards from column
/// `x0 * 8` in row `y`: bit `7 - i` holds pixel `i`.
pub open spec fn pack_bits(g: Seq<Seq<bool>>, x0: int, y: int, k: nat) -> u8
    decreases k,
{
    if k == 0 {
        0
    } else {
        pack_bits(g, x0, y, (k - 1) as nat) | (if g[8 * x0 + k - 1][y] {
            (1u8 << ((7 - (k - 1)) as u8))
        } else {
            0
        })
    }
}

/// The raw byte at row `fy`, column-of-modules `fx` of the frame buffer: the
/// canvas is cut into eight-pixel strips, the top eight pixel rows map
/// straight onto module columns, and the bottom eight pixel rows continue
/// four module columns to the right.
pub open spec fn spec_raw_byte(g: Seq<Seq<bool>>, h: int, cols: int, fy: int, fx: int) -> u8 {
    if fy < h && 0 <= fx < cols {
        pack_bits(g, fx, fy, 8)
    } else if fy + 8 < h && 0 <= fx - 4 < cols {
        pack_bits(g, fx - 4, fy + 8, 8)
    } else {
        0
    }
}

/// The whole frame buffer: eight rows of `t` bytes each.
pub open spec fn spec_to_raw(g: Seq<Seq<bool>>, h: int, cols: int, t: int) -> Seq<Seq<u8>> {
    Seq::new(8, |fy: int| Seq::new(t as nat, |fx: int| spec_raw_byte(g, h, cols, fy, fx)))
}

/// Rows written below every column's height change nothing.
proof fn lemma_print_rows_offscreen<const N: usize>(
    g: Seq<Seq<bool>>,
    f: Font<N>,
    x: int,
    y: int,
    c: char,
    rows: nat,
)
    requires
        y >= 0,
        forall|i: int| 0 <= i < g.len() ==> (#[trigger] g[i]).len() <= y,
    ensures
        spec_print_rows(g, f, x, y, c, rows) == g,
    decreases rows,
{
    if rows > 0 {
        lemma_print_rows_offscreen(g, f, x, y, c, (rows - 1) as nat);
    }
}

/// Text rendered below every column's height changes nothing, wherever the
/// cursor ends up.
proof fn lemma_print_text_offscreen<const N: usize>(
    g: Seq<Seq<bool>>,
    f: Font<N>,
    x: int,
    y: int,
    text: Seq<char>,
)
    requires
        y >= 0,
        forall|i: int| 0 <= i < g.len() ==> (#[trigger] g[i]).len() <= y,
    ensures
        spec_print_text(g, f, x, y, text) == g,
    decreases text.len(),
{
    if text.len() > 0 && x < g.len() {
        lemma_print_rows_offscreen(g, f, x, y, text[0], f.spec_height() as nat);
        lemma_print_text_offscreen(g, f, x + f.spec_glyph_of(text[0]).width, y, text.drop_first());
    }
}

/// A `W` by `H` pixel canvas; `(0, 0)` is the top-left corner.
pub struct Canvas<const W: usize, const H: usize> {
    grid: Vec<Vec<bool>>,
}

impl<const W: usize, const H: usize> View for Canvas<W, H> {
    type V = Seq<Seq<bool>>;

    closed spec fn view(&self) -> Seq<Seq<bool>> {
        self.grid@.map_values(|col: Vec<bool>| col@)
    }
}

impl<const W: usize, const H: usize> Canvas<W, H> {
    /// `W` columns of `H` pixels each.
    pub open spec fn wf(self) -> bool {
        &&& self@.len() == W
        &&& forall|i: int| 0 <= i < W ==> self@[i].len() == H
    }

    /// A blank canvas.
    pub fn init() -> (r: Canvas<W, H>)
        ensures
            r.wf(),
            forall|x: int, y: int| 0 <= x < W && 0 <= y < H ==> !(#[trigger] r@[x][y]),
    {
        let mut grid: Vec<Vec<bool>> = Vec::new();
        let mut i: usize = 0;
        while i < W
            invariant
                0 <= i <= W,
                grid@.len() == i,
                forall|k: int| 0 <= k < i ==> (#[trigger] grid@[k])@ =~= Seq::new(
                    H as nat,
                    |j: int| false,
                ),
            decreases W - i,
        {
            let col: Vec<bool> = vec![false; H];
            grid.push(col);
            i = i + 1;
        }
        let r = Canvas { grid };
        proof {
            assert forall|x: int, y: int| 0 <= x < W && 0 <= y < H implies !(#[trigger] r@[x][y]) by {
                assert(r@[x] == r.grid@[x]@);
            }
            assert forall|i: int| 0 <= i < W implies r@[i].len() == H by {
                assert(r@[i] == r.grid@[i]@);
            }
        }
        r
    }

    /// Sets one pixel; coordinates off the canvas are ignored.
    pub fn set_pixel(&mut self, x: usize, y: usize, val: bool)
        requires
            old(self).wf(),
        ensures
            (*final(self)).wf(),
            (*final(self))@ == spec_set_pixel(old(self)@, x as int, y as int, val),
    {
        if x >= W || y >= H {
            return ;
        }
        proof {
            assert(self.grid@.len() == self@.len());
            assert(self.grid@[x as int]@ == self@[x as int]);
        }
        self.grid[x][y] = val;
        proof {
            assert(self@[x as int] == self.grid@[x as int]@);
            assert forall|xx: int| 0 <= xx < W && xx != x implies self@[xx] == old(self)@[xx] by {
                assert(self@[xx] == self.grid@[xx]@);
                assert(old(self)@[xx] == old(self).grid@[xx]@);
            }
            assert(self@ =~= spec_set_pixel(old(self)@, x as int, y as int, val));
        }
    }

    /// Turns one pixel on; coordinates off the canvas are ignored.
    pub fn on(&mut self, x: usize, y: usize)
        requires
            old(self).wf(),
        ensures
            (*final(self)).wf(),
            (*final(self))@ == spec_set_pixel(old(self)@, x as int, y as int, true),
    {
        self.set_pixel(x, y, true);
    }

    /// Turns one pixel off; coordinates off the canvas are ignored.
    pub fn off(&mut self, x: usize, y: usize)
        requires
            old(self).wf(),
        ensures
            (*final(self)).wf(),
            (*final(self))@ == spec_set_pixel(old(self)@, x as int, y as int, false),
    {
        self.set_pixel(x, y, false);
    }

    /// Writes one row byte leftmost-bit-first at `(x, y)`, clipped at the
    /// right edge; an out-of-range start is ignored.
    fn print_line8(&mut self, x: usize, y: usize, line: u8)
        requires
            old(self).wf(),
        ensures
            (*final(self)).wf(),
            (*final(self))@ == spec_print_line8(old(self)@, x as int, y as int, line),
    {
        if x >= W || y >= H {
            return ;
        }
        let n = if W - x < 8 {
            W - x
        } else {
            8
        };
        let ghost g0 = self@;
        let mut idx: usize = 0;
        while idx < n
            invariant
                0 <= idx <= n,
                x + n <= W,
                n <= 8,
                y < H,
                g0.len() == W,
                forall|i: int| 0 <= i < W ==> (#[trigger] g0[i]).len() == H,
                self@.len() == W,
                forall|i: int| 0 <= i < W ==> (#[trigger] self@[i]).len() == H,
                forall|xx: int| x <= xx < x + idx ==> #[trigger] self@[xx] == g0[xx].update(
                    y as int,
                    line_bit(line, xx - x),
                ),
                forall|xx: int| 0 <= xx < W && !(x <= xx < x + idx) ==> #[trigger] self@[xx]
                    == g0[xx],
            decreases n - idx,
        {
            let sh: u8 = (7 - idx) as u8;
            let bit = ((line >> sh) & 1) == 1;
            proof {
                assert(self.grid@.len() == self@.len());
                assert(self.grid@[(x + idx) as int]@ == self@[(x + idx) as int]);
            }
            let ghost before = self@;
            let ghost grid_before = self.grid@;
            self.grid[x + idx][y] = bit;
            proof {
                assert(bit == line_bit(line, idx as int));
                assert(self@[(x + idx) as int] == self.grid@[(x + idx) as int]@);
                assert(before[(x + idx) as int] == g0[(x + idx) as int]);
                assert(self@[(x + idx) as int] =~= g0[(x + idx) as int].update(
                    y as int,
                    line_bit(line, idx as int),
                ));
                assert forall|xx: int| 0 <= xx < W && xx != x + idx implies #[trigger] self@[xx]
                    == before[xx] by {
                    assert(self@[xx] == self.grid@[xx]@);
                    assert(self.grid@[xx] == grid_before[xx]);
                    assert(before[xx] == grid_before[xx]@);
                }
                assert forall|i: int| 0 <= i < W implies (#[trigger] self@[i]).len() == H by {
                    if i != x + idx {
                        assert(self@[i] == before[i]);
                    }
                }
            }
            idx = idx + 1;
        }
        proof {
            assert(self@ =~= spec_print_line8(old(self)@, x as int, y as int, line));
        }
    }

    /// Renders ASCII `text` with `font`, the cursor starting at `(x, y)` and
    /// advancing by each glyph's width; rendering stops at the right edge.
    pub fn print_font<const N: usize>(&mut self, font: &Font<N>, x: usize, y: usize, text: &str)
        requires
            old(self).wf(),
            font.wf(),
            text.is_ascii(),
            W + 255 < usize::MAX,
            H + 8 < usize::MAX,
        ensures
            (*final(self)).wf(),
            (*final(self))@ == spec_print_text(old(self)@, *font, x as int, y as int, text@),
    {
        proof {
            vstd::string::is_ascii_spec_bytes(text);
            vstd::utf8::is_ascii_chars_nat_bound(text@);
        }
        if y >= H {
            proof {
                lemma_print_text_offscreen(self@, *font, x as int, y as int, text@);
            }
            return ;
        }
        let fh = font.height();
        let bytes = text.as_bytes();
        let mut cursor = x;
        let mut k: usize = 0;
        proof {
            assert(text@.skip(0) =~= text@);
        }
        while k < bytes.len()
            invariant
                0 <= k <= bytes@.len(),
                bytes@.len() == text@.len(),
                vstd::utf8::is_ascii_chars(text@),
                forall|i: int| 0 <= i < text@.len() ==> bytes@[i] == (#[trigger] text@[i]) as u8,
                self.wf(),
                font.wf(),
                fh == font.spec_height(),
                fh <= 8,
                y < H,
                W + 255 < usize::MAX,
                H + 8 < usize::MAX,
                spec_print_text(old(self)@, *font, x as int, y as int, text@) == spec_print_text(
                    self@,
                    *font,
                    cursor as int,
                    y as int,
                    text@.skip(k as int),
                ),
            decreases bytes@.len() - k,
        {
            if cursor >= W {
                proof {
                    assert(spec_print_text(self@, *font, cursor as int, y as int, text@.skip(k as int))
                        == self@);
                }
                return ;
            }
            let b = bytes[k];
            let ch = b as char;
            proof {
                let c = text@[k as int];
                vstd::utf8::is_ascii_chars_nat_bound(text@);
                assert((c as nat) < 128);
                assert(b == c as u8);
                assert(c as u8 == (c as u32) as u8);
                assert((c as u32) < 128);
                assert(((c as u32) as u8) as u32 == c as u32);
                vstd::utf8::char_u32_cast(c, c as u32);
                assert(((c as u8) as u32) == c as u32);
                assert(ch == c);
            }
            let ghost g_before = self@;
            let ghost cursor0 = cursor as int;
            let mut row: usize = 0;
            while row < fh
                invariant
                    0 <= row <= fh,
                    fh == font.spec_height(),
                    fh <= 8,
                    y < H,
                    H + 8 < usize::MAX,
                    cursor0 == cursor as int,
                    cursor < W,
                    self.wf(),
                    font.wf(),
                    self@ == spec_print_rows(g_before, *font, cursor0, y as int, ch, row as nat),
                decreases fh - row,
            {
                let code = font.to_line(row, ch);
                self.print_line8(cursor, y + row, code);
                row = row + 1;
            }
            let w = font.width_of(ch);
            proof {
                let rest = text@.skip(k as int);
                assert(rest[0] == text@[k as int]);
                assert(rest.drop_first() =~= text@.skip(k + 1));
                assert(spec_print_text(self@, *font, cursor0 + w, y as int, rest.drop_first())
                    == spec_print_text(g_before, *font, cursor0, y as int, rest));
            }
            cursor = cursor + w as usize;
            k = k + 1;
        }
        proof {
            assert(text@.skip(text@.len() as int).len() == 0);
        }
    }


    /// Packs the canvas into the eight-row frame buffer of a chain of `T`
    /// modules: the top eight pixel rows map straight onto module columns,
    /// the bottom eight continue four module columns to the right.
    pub fn to_raw<const T: usize>(&self) -> (r: Vec<Vec<u8>>)
        requires
            self.wf(),
            H <= 8 || (H <= 16 && W <= 32),
            W / 8 <= T,
            T < usize::MAX / 2,
        ensures
            r@.map_values(|row: Vec<u8>| row@) =~~= spec_to_raw(
                self@,
                H as int,
                (W / 8) as int,
                T as int,
            ),
    {
        let cols = W / 8;
        let mut buf: Vec<Vec<u8>> = Vec::new();
        let mut fy: usize = 0;
        while fy < 8
            invariant
                0 <= fy <= 8,
                self.wf(),
                H <= 8 || (H <= 16 && W <= 32),
                cols == W / 8,
                cols <= T,
                T < usize::MAX / 2,
                buf@.len() == fy,
                forall|a: int| 0 <= a < fy ==> (#[trigger] buf@[a])@ =~= Seq::new(
                    T as nat,
                    |fx: int| spec_raw_byte(self@, H as int, cols as int, a, fx),
                ),
            decreases 8 - fy,
        {
            let mut rowv: Vec<u8> = Vec::new();
            let mut fx: usize = 0;
            while fx < T
                invariant
                    0 <= fx <= T,
                    fy < 8,
                    self.wf(),
                    H <= 8 || (H <= 16 && W <= 32),
                    cols == W / 8,
                    cols <= T,
                    T < usize::MAX / 2,
                    rowv@.len() == fx,
                    forall|b: int| 0 <= b < fx ==> #[trigger] rowv@[b] == spec_raw_byte(
                        self@,
                        H as int,
                        cols as int,
                        fy as int,
                        b,
                    ),
                decreases T - fx,
            {
                let byte: u8 = if fy < H && fx < cols {
                    self.pack_byte(fx, fy)
                } else if fy + 8 < H && fx >= 4 && fx - 4 < cols {
                    self.pack_byte(fx - 4, fy + 8)
                } else {
                    0
                };
                rowv.push(byte);
                fx = fx + 1;
            }
            buf.push(rowv);
            fy = fy + 1;
        }
        buf
    }

    /// The byte packing the eight pixels rightwards from column `x0 * 8` in
    /// row `y`.
    fn pack_byte(&self, x0: usize, y: usize) -> (r: u8)
        requires
            self.wf(),
            x0 < W / 8,
            y < H,
        ensures
            r == pack_bits(self@, x0 as int, y as int, 8),
    {
        let mut cur: u8 = 0;
        let mut idx: usize = 0;
        proof {
            assert(8 * (x0 as int) + 8 <= W) by (nonlinear_arith)
                requires
                    x0 < W / 8,
            ;
        }
        while idx < 8
            invariant
                0 <= idx <= 8,
                self.wf(),
                x0 < W / 8,
                8 * (x0 as int) + 8 <= W,
                y < H,
                cur == pack_bits(self@, x0 as int, y as int, idx as nat),
            decreases 8 - idx,
        {
            let sh: u8 = (7 - idx) as u8;
            if self.pixel_at(8 * x0 + idx, y) {
                cur = cur | (1u8 << sh);
            } else {
                cur = cur | 0;
            }
            idx = idx + 1;
        }
        cur
    }

    /// The pixel at `(x, y)`.
    fn pixel_at(&self, x: usize, y: usize) -> (r: bool)
        requires
            self.wf(),
            x < W,
            y < H,
        ensures
            r == self@[x as int][y as int],
    {
        proof {
            assert(self.grid@.len() == self@.len());
            assert(self.grid@[x as int]@ == self@[x as int]);
        }
        self.grid[x][y]
    }

    /// Renders `text` in the eight-row big-digit alphabet.
    pub fn print_8x8(&mut self, x: usize, y: usize, text: &str)
        requires
            old(self).wf(),
            text.is_ascii(),
            W + 255 < usize::MAX,
            H + 8 < usize::MAX,
        ensures
            (*final(self)).wf(),
            exists|f: Font<11>|
                f.wf() && f.spec_height() == 8 && f.spec_lower() == '0' as u8 && f.spec_higher()
                    == ':' as u8 && (*final(self))@ == #[trigger] spec_print_text(
                    old(self)@,
                    f,
                    x as int,
                    y as int,
                    text@,
                ),
    {
        let font = crate::font::alphabet_big_digits();
        self.print_font(&font, x, y, text);
    }

    /// Renders `text` in the seven-row full-ASCII alphabet.
    pub fn print_5x7(&mut self, x: usize, y: usize, text: &str)
        requires
            old(self).wf(),
            text.is_ascii(),
            W + 255 < usize::MAX,
            H + 8 < usize::MAX,
        ensures
            (*final(self)).wf(),
            exists|f: Font<95>|
                f.wf() && f.spec_height() == 7 && f.spec_lower() == ' ' as u8 && f.spec_higher()
                    == '~' as u8 && (*final(self))@ == #[trigger] spec_print_text(
                    old(self)@,
                    f,
                    x as int,
                    y as int,
                    text@,
                ),
    {
        let font = crate::font::alphabet_normal();
        self.print_font(&font, x, y, text);
    }

    /// Renders `text` in the six-row digit-and-punctuation alphabet.
    pub fn print_4x6(&mut self, x: usize, y: usize, text: &str)
        requires
            old(self).wf(),
            text.is_ascii(),
            W + 255 < usize::MAX,
            H + 8 < usize::MAX,
        ensures
            (*final(self)).wf(),
            exists|f: Font<16>|
                f.wf() && f.spec_height() == 6 && f.spec_lower() == '0' as u8 && f.spec_higher()
                    == '?' as u8 && (*final(self))@ == #[trigger] spec_print_text(
                    old(self)@,
                    f,
                    x as int,
                    y as int,
                    text@,
                ),
    {
        let font = crate::font::alphabet_tiny();
        self.print_font(&font, x, y, text);
    }

    /// Renders `text` in the four-row digit-and-punctuation alphabet.
    pub fn print_4x4(&mut self, x: usize, y: usize, text: &str)
        requires
            old(self).wf(),
            text.is_ascii(),
            W + 255 < usize::MAX,
            H + 8 < usize::MAX,
        ensures
            (*final(self)).wf(),
            exists|f: Font<16>|
                f.wf() && f.spec_height() == 4 && f.spec_lower() == '0' as u8 && f.spec_higher()
                    == '?' as u8 && (*final(self))@ == #[trigger] spec_print_text(
                    old(self)@,
                    f,
                    x as int,
                    y as int,
                    text@,
                ),
    {
        let font = crate::font::alphabet_nano();
        self.print_font(&font, x, y, text);
    }
}

/// Most modules a chain may hold.
pub const MAX_DISPLAYS_COUNT: usize = 16;

/// A frame addressing every module alike: the register byte and the value,
/// repeated once per module.
pub open spec fn spec_frame_all(code: u8, data: u8, n: int) -> Seq<u8> {
    Seq::new((2 * n) as nat, |j: int| if j % 2 == 0 { code } else { data })
}

/// A frame with one value per module: the register byte, then module `j`'s
/// value, for each module in chain order.
pub open spec fn spec_frame(code: u8, data: Seq<u8>) -> Seq<u8> {
    Seq::new(2 * data.len(), |j: int| if j % 2 == 0 { code } else { data[j / 2] })
}

/// The frame protocol of a chain of `N` display modules: every frame shifted
/// down the chain is two bytes per module.  Building the frames is decided
/// here; the driver shifts them out over its wire.
pub struct Screen<const N: usize> {}

impl<const N: usize> Screen<N> {
    /// The frame performing one register write on every module.
    pub fn frame_all(ord: Order) -> (r: Vec<u8>)
        requires
            N <= MAX_DISPLAYS_COUNT,
        ensures
            r@ =~= spec_frame_all(ord.command.spec_code(), ord.data, N as int),
    {
        let code = ord.command.code();
        let mut out: Vec<u8> = Vec::new();
        let mut i: usize = 0;
        while i < N
            invariant
                0 <= i <= N,
                code == ord.command.spec_code(),
                out@.len() == 2 * i,
                forall|j: int| 0 <= j < 2 * i ==> #[trigger] out@[j] == (if j % 2 == 0 {
                    ord.command.spec_code()
                } else {
                    ord.data
                }),
            decreases N - i,
        {
            let ghost prev = out@;
            out.push(code);
            out.push(ord.data);
            proof {
                assert forall|j: int| 0 <= j < prev.len() + 2 implies #[trigger] out@[j] == (if j
                    % 2 == 0 {
                    ord.command.spec_code()
                } else {
                    ord.data
                }) by {
                    if j < prev.len() {
                        assert(out@[j] == prev[j]);
                    } else if j == prev.len() {
                        assert(out@[j] == code);
                        assert(j % 2 == 0);
                    } else {
                        assert(out@[j] == ord.data);
                        assert(j % 2 == 1);
                    }
                }
            }
            i = i + 1;
        }
        proof {
            assert(out@ =~= spec_frame_all(ord.command.spec_code(), ord.data, N as int));
        }
        out
    }

    /// The frame writing one register with module `j`'s own value.
    pub fn frame(command: Command, data: &Vec<u8>) -> (r: Vec<u8>)
        requires
            N <= MAX_DISPLAYS_COUNT,
            data@.len() == N,
        ensures
            r@ =~= spec_frame(command.spec_code(), data@),
    {
        let code = command.code();
        let mut out: Vec<u8> = Vec::new();
        let mut i: usize = 0;
        while i < N
            invariant
                0 <= i <= N,
                code == command.spec_code(),
                data@.len() == N,
                out@.len() == 2 * i,
                forall|j: int| 0 <= j < 2 * i ==> #[trigger] out@[j] == (if j % 2 == 0 {
                    command.spec_code()
                } else {
                    data@[j / 2]
                }),
            decreases N - i,
        {
            let ghost prev = out@;
            let d = data[i];
            out.push(code);
            out.push(d);
            proof {
                assert forall|j: int| 0 <= j < prev.len() + 2 implies #[trigger] out@[j] == (if j
                    % 2 == 0 {
                    command.spec_code()
                } else {
                    data@[j / 2]
                }) by {
                    if j < prev.len() {
                        assert(out@[j] == prev[j]);
                    } else if j == prev.len() {
                        assert(out@[j] == code);
                        assert(j % 2 == 0);
                    } else {
                        assert(out@[j] == d);
                        assert(j % 2 == 1);
                        assert(j / 2 == i as int);
                    }
                }
            }
            i = i + 1;
        }
        proof {
            assert(out@ =~= spec_frame(command.spec_code(), data@));
        }
        out
    }

    /// The start-up sequence of the chain: display test off, all eight rows
    /// scanned, raw (undecoded) data, every row cleared, lowest intensity,
    /// power on — in that order.
    pub fn init_frames() -> (r: Vec<Vec<u8>>)
        requires
            N <= MAX_DISPLAYS_COUNT,
        ensures
            r@.len() == 13,
            r@[0]@ =~= spec_frame_all(0x0f, 0, N as int),
            r@[1]@ =~= spec_frame_all(0x0b, 0x07, N as int),
            r@[2]@ =~= spec_frame_all(0x09, 0, N as int),
            forall|i: int| 3 <= i < 11 ==> (#[trigger] r@[i])@ =~= spec_frame_all(
                (i - 2) as u8,
                0,
                N as int,
            ),
            r@[11]@ =~= spec_frame_all(0x0a, 0, N as int),
            r@[12]@ =~= spec_frame_all(0x0c, 1, N as int),
    {
        let mut frames: Vec<Vec<u8>> = Vec::new();
        frames.push(Self::frame_all(order(Command::DisplayTest, 0)));
        frames.push(Self::frame_all(order(Command::ScanLimit, 0x07)));
        frames.push(Self::frame_all(order(Command::DecodeMode, 0)));
        let mut i: usize = 0;
        while i < 8
            invariant
                0 <= i <= 8,
                N <= MAX_DISPLAYS_COUNT,
                frames@.len() == 3 + i,
                frames@[0]@ =~= spec_frame_all(0x0f, 0, N as int),
                frames@[1]@ =~= spec_frame_all(0x0b, 0x07, N as int),
                frames@[2]@ =~= spec_frame_all(0x09, 0, N as int),
                forall|k: int| 3 <= k < 3 + i ==> (#[trigger] frames@[k])@ =~= spec_frame_all(
                    (k - 2) as u8,
                    0,
                    N as int,
                ),
            decreases 8 - i,
        {
            frames.push(Self::frame_all(order(Command::digit(i), 0)));
            i = i + 1;
        }
        frames.push(Self::frame_all(order(Command::Intensity, 0)));
        frames.push(Self::frame_all(order(Command::Power, 1)));
        frames
    }

    /// The eight row frames drawing `canvas` on the chain.
    pub fn draw_frames<const W: usize, const H: usize>(canvas: &Canvas<W, H>) -> (r: Vec<Vec<u8>>)
        requires
            canvas.wf(),
            N <= MAX_DISPLAYS_COUNT,
            H <= 8 || (H <= 16 && W <= 32),
            W / 8 <= N,
        ensures
            r@.len() == 8,
            forall|i: int| 0 <= i < 8 ==> (#[trigger] r@[i])@ =~= spec_frame(
                (i + 1) as u8,
                spec_to_raw(canvas@, H as int, (W / 8) as int, N as int)[i],
            ),
    {
        let raw = canvas.to_raw::<N>();
        let ghost raw_spec = spec_to_raw(canvas@, H as int, (W / 8) as int, N as int);
        proof {
            assert(raw@.map_values(|row: Vec<u8>| row@).len() == 8);
            assert(raw@.len() == 8);
        }
        let mut frames: Vec<Vec<u8>> = Vec::new();
        let mut i: usize = 0;
        while i < 8
            invariant
                0 <= i <= 8,
                N <= MAX_DISPLAYS_COUNT,
                raw@.len() == 8,
                raw_spec.len() == 8,
                forall|k: int| 0 <= k < 8 ==> (#[trigger] raw@[k])@ == raw_spec[k],
                forall|k: int| 0 <= k < 8 ==> (#[trigger] raw_spec[k]).len() == N,
                frames@.len() == i,
                forall|k: int| 0 <= k < i ==> (#[trigger] frames@[k])@ =~= spec_frame(
                    (k + 1) as u8,
                    raw_spec[k],
                ),
            decreases 8 - i,
        {
            let row = &raw[i];
            frames.push(Self::frame(Command::digit(i), row));
            i = i + 1;
        }
        frames
    }
}

} // verus!
