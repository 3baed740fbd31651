//! Bitmap fonts: a contiguous range of ASCII glyphs, each up to eight rows
//! of eight pixels packed as one byte per row.
//!
//! A font maps a character to its glyph by offset from the range's first
//! character; characters outside the range render as the font's fallback
//! glyph.  The concrete alphabets live in [`crate::display`]'s callers; this
//! module holds the lookup logic.

use vstd::prelude::*;

verus! {

/// The byte of `val` at big-endian position `i` (position 0 is the most
/// significant byte).
pub open spec fn be_byte(val: u64, i: int) -> u8 {
    (val >> ((56 - 8 * i) as u64)) as u8
}

/// One glyph: its advance width in pixels and eight row bytes, top row
/// first.
pub struct Glyph {
    /// The cursor advance of the glyph, in pixels.
    pub width: u8,
    /// The eight row bytes, top row first.
    pub data: [u8; 8],
}

impl Glyph {
    /// The eight row bytes.
    pub open spec fn spec_data(self) -> Seq<u8> {
        self.data@
    }

    /// The row byte at `position`.
    pub fn line(&self, position: usize) -> (r: u8)
        requires
            position < 8,
        ensures
            r == self.spec_data()[position as int],
    {
        self.data[position]
    }
}

/// Builds a glyph from its width and its eight row bytes packed big-endian
/// into one word, top row in the most significant byte.
pub fn build_glyph(width: u8, val: u64) -> (r: Glyph)
    ensures
        r.width == width,
        r.spec_data().len() == 8,
        forall|i: int| 0 <= i < 8 ==> r.spec_data()[i] == be_byte(val, i),
{
    let data: [u8; 8] = [
        #[verifier::truncate] ((val >> 56) as u8),
        #[verifier::truncate] ((val >> 48) as u8),
        #[verifier::truncate] ((val >> 40) as u8),
        #[verifier::truncate] ((val >> 32) as u8),
        #[verifier::truncate] ((val >> 24) as u8),
        #[verifier::truncate] ((val >> 16) as u8),
        #[verifier::truncate] ((val >> 8) as u8),
        #[verifier::truncate] ((val >> 0) as u8),
    ];
    Glyph { width, data }
}

/// A font: one glyph for each character of a contiguous ASCII range, plus a
/// fallback for everything else.
pub struct Font<const N: usize> {
    glyphs: Vec<Glyph>,
    lower: u8,
    higher: u8,
    fallback: char,
    /// Rows per glyph actually drawn.
    pub height: usize,
}

impl<const N: usize> Font<N> {
    /// The glyph table covers the whole character range, the fallback lies
    /// inside the range, and glyphs are at most eight rows tall.
    pub closed spec fn wf(self) -> bool {
        &&& self.glyphs@.len() == N
        &&& self.lower <= self.higher
        &&& (self.higher as int) - (self.lower as int) < N
        &&& self.lower <= self.fallback as u8
        &&& self.fallback as u8 <= self.higher
        &&& (self.fallback as u32) < 128
        &&& self.height <= 8
    }

    pub closed spec fn spec_lower(self) -> u8 {
        self.lower
    }

    pub closed spec fn spec_height(self) -> usize {
        self.height
    }

    /// Rows per glyph actually drawn.
    pub fn height(&self) -> (r: usize)
        ensures
            r == self.spec_height(),
            self.wf() ==> r <= 8,
    {
        self.height
    }

    pub closed spec fn spec_higher(self) -> u8 {
        self.higher
    }

    pub closed spec fn spec_fallback(self) -> char {
        self.fallback
    }

    pub closed spec fn spec_glyphs(self) -> Seq<Glyph> {
        self.glyphs@
    }

    /// `val` has its own glyph in the range.
    pub open spec fn in_range(self, val: char) -> bool {
        self.spec_lower() <= val as u8 <= self.spec_higher()
    }

    /// The glyph standing for `val`: its own when in range, the fallback's
    /// otherwise.
    pub open spec fn spec_glyph_of(self, val: char) -> Glyph {
        if self.in_range(val) {
            self.spec_glyphs()[val as u8 - self.spec_lower()]
        } else {
            self.spec_glyphs()[self.spec_fallback() as u8 - self.spec_lower()]
        }
    }

    /// Assembles a font.  Yields `None` when the glyph table cannot cover
    /// the range, when the range is inverted, when the fallback lies outside
    /// the range, or when the glyphs would be taller than eight rows.
    pub fn init(height: usize, lower: char, higher: char, fallback: char, glyphs: Vec<
        Glyph,
    >) -> (r: Option<Font<N>>)
        requires
            glyphs@.len() == N,
            (lower as u32) < 128,
            (higher as u32) < 128,
            (fallback as u32) < 128,
        ensures
            r is Some <==> ((lower as u8 <= higher as u8) && ((higher as u8) - (lower as u8) < N) && (
            lower as u8 <= fallback as u8) && (fallback as u8 <= higher as u8) && height <= 8),
            r matches Some(f) ==> {
                &&& f.wf()
                &&& f.spec_lower() == lower as u8
                &&& f.spec_higher() == higher as u8
                &&& f.spec_fallback() == fallback
                &&& f.spec_height() == height
                &&& f.spec_glyphs() == glyphs@
            },
    {
        let lower_u8 = lower as u8;
        let higher_u8 = higher as u8;
        let fallback_u8 = fallback as u8;
        if lower_u8 <= higher_u8 && ((higher_u8 - lower_u8) as usize) < glyphs.len() && lower_u8
            <= fallback_u8 && fallback_u8 <= higher_u8 && height <= 8 {
            Some(Font { glyphs, lower: lower_u8, higher: higher_u8, fallback, height })
        } else {
            None
        }
    }

    /// The advance width of `val`'s own glyph; `val` must be in range.
    pub fn width_of_unchecked(&self, val: char) -> (r: u8)
        requires
            self.wf(),
            self.in_range(val),
        ensures
            r == self.spec_glyph_of(val).width,
    {
        let idx = val as u8 - self.lower;
        self.glyphs[idx as usize].width
    }

    /// The advance width of the glyph standing for `val`, falling back for
    /// characters outside the range.
    pub fn width_of(&self, val: char) -> (r: u8)
        requires
            self.wf(),
        ensures
            r == self.spec_glyph_of(val).width,
    {
        if (val as u8) < self.lower || (val as u8) > self.higher {
            self.width_of_unchecked(self.fallback)
        } else {
            self.width_of_unchecked(val)
        }
    }

    /// The row byte of `val`'s own glyph at `position`; `val` must be in
    /// range.
    pub fn to_line_unchecked(&self, position: usize, val: char) -> (r: u8)
        requires
            self.wf(),
            self.in_range(val),
            position < 8,
        ensures
            r == self.spec_glyph_of(val).spec_data()[position as int],
    {
        let idx = val as u8 - self.lower;
        self.glyphs[idx as usize].line(position)
    }

    /// The row byte at `position` of the glyph standing for `val`, falling
    /// back for characters outside the range.
    pub fn to_line(&self, position: usize, val: char) -> (r: u8)
        requires
            self.wf(),
            position < 8,
        ensures
            r == self.spec_glyph_of(val).spec_data()[position as int],
    {
        if (val as u8) < self.lower || (val as u8) > self.higher {
            self.to_line_unchecked(position, self.fallback)
        } else {
            self.to_line_unchecked(position, val)
        }
    }
}


/// The 11-glyph alphabet of 8-row glyphs covering '0' through ':'.
pub fn alphabet_big_digits() -> (r: Font<11>)
    ensures
        r.wf(),
        r.spec_height() == 8,
        r.spec_lower() == '0' as u8,
        r.spec_higher() == ':' as u8,
{
    let mut glyphs: Vec<Glyph> = Vec::new();
    glyphs.push(build_glyph(7, 0x384c5c6c4c4c3800));  // 0
    glyphs.push(build_glyph(7, 0x1818381818183c00));  // 1
    glyphs.push(build_glyph(7, 0x384c0c1820407c00));  // 2
    glyphs.push(build_glyph(7, 0x384c0c380c4c3800));  // 3
    glyphs.push(build_glyph(7, 0x0c1c3c4c7e0c0c00));  // 4
    glyphs.push(build_glyph(7, 0x7c40780c0c4c3800));  // 5
    glyphs.push(build_glyph(7, 0x384c40784c4c3800));  // 6
    glyphs.push(build_glyph(7, 0x7c4c183030303000));  // 7
    glyphs.push(build_glyph(7, 0x384c4c384c4c3800));  // 8
    glyphs.push(build_glyph(7, 0x384c4c3c0c4c3800));  // 9
    glyphs.push(build_glyph(3, 0x0000400040000000));  // :
    match Font::<11>::init(8, '0', ':', ':', glyphs) {
        Some(f) => f,
        None => vstd::pervasive::unreached(),
    }
}

/// The 95-glyph alphabet of 7-row glyphs covering ' ' through '~'.
pub fn alphabet_normal() -> (r: Font<95>)
    ensures
        r.wf(),
        r.spec_height() == 7,
        r.spec_lower() == ' ' as u8,
        r.spec_higher() == '~' as u8,
{
    let mut glyphs: Vec<Glyph> = Vec::new();
    glyphs.push(build_glyph(5, 0x0000000000000000));
    glyphs.push(build_glyph(4, 0x2020202000200000));  // !
    glyphs.push(build_glyph(5, 0x5050500000000000));  // "
    glyphs.push(build_glyph(5, 0x0050f850f8500000));  // #
    glyphs.push(build_glyph(5, 0x0070a07028700000));  // $
    glyphs.push(build_glyph(5, 0x8090204090100000));  // %
    glyphs.push(build_glyph(6, 0xc0c0182020180000));  // &
    glyphs.push(build_glyph(5, 0x8080800000000000));  // '
    glyphs.push(build_glyph(5, 0x2040404040200000));  // (
    glyphs.push(build_glyph(5, 0x4020202020400000));  // )
    glyphs.push(build_glyph(5, 0x40a0400000000000));  // *
    glyphs.push(build_glyph(5, 0x002020f820200000));  // +
    glyphs.push(build_glyph(5, 0x0000000030204000));  // ,
    glyphs.push(build_glyph(5, 0x0000007000000000));  // -
    glyphs.push(build_glyph(5, 0x0000000060600000));  // .
    glyphs.push(build_glyph(5, 0x0010204080000000));  // /
    glyphs.push(build_glyph(5, 0x6090909090600000));  // 0
    glyphs.push(build_glyph(5, 0x2060202020700000));  // 1
    glyphs.push(build_glyph(5, 0x6090102040f00000));  // 2
    glyphs.push(build_glyph(5, 0xf010601090600000));  // 3
    glyphs.push(build_glyph(5, 0x2060a0f020200000));  // 4
    glyphs.push(build_glyph(5, 0xf080e01090600000));  // 5
    glyphs.push(build_glyph(5, 0x6080e09090600000));  // 6
    glyphs.push(build_glyph(5, 0xf010202040400000));  // 7
    glyphs.push(build_glyph(5, 0x6090609090600000));  // 8
    glyphs.push(build_glyph(5, 0x6090907010600000));  // 9
    glyphs.push(build_glyph(5, 0x0060600060600000));  // :
    glyphs.push(build_glyph(5, 0x0060600060408000));  // ;
    glyphs.push(build_glyph(5, 0x0010204020100000));  // <
    glyphs.push(build_glyph(5, 0x0000f000f0000000));  // =
    glyphs.push(build_glyph(5, 0x0040201020400000));  // >
    glyphs.push(build_glyph(5, 0x2050102000200000));  // ?
    glyphs.push(build_glyph(5, 0x6090b0b080600000));  // @
    glyphs.push(build_glyph(5, 0x609090f090900000));  // A
    glyphs.push(build_glyph(5, 0xe090e09090e00000));  // B
    glyphs.push(build_glyph(5, 0x6090808090600000));  // C
    glyphs.push(build_glyph(5, 0xe090909090e00000));  // D
    glyphs.push(build_glyph(5, 0xf080e08080f00000));  // E
    glyphs.push(build_glyph(5, 0xf080e08080800000));  // F
    glyphs.push(build_glyph(5, 0x609080b090700000));  // G
    glyphs.push(build_glyph(5, 0x9090f09090900000));  // H
    glyphs.push(build_glyph(5, 0x7020202020700000));  // I
    glyphs.push(build_glyph(5, 0x1010101090600000));  // J
    glyphs.push(build_glyph(5, 0x90a0c0c0a0900000));  // K
    glyphs.push(build_glyph(5, 0x8080808080f00000));  // L
    glyphs.push(build_glyph(5, 0x90f0f09090900000));  // M
    glyphs.push(build_glyph(5, 0x90d0d0b0b0900000));  // N
    glyphs.push(build_glyph(5, 0x6090909090600000));  // O
    glyphs.push(build_glyph(5, 0xe09090e080800000));  // P
    glyphs.push(build_glyph(5, 0x60909090d0601000));  // Q
    glyphs.push(build_glyph(5, 0xe09090e0a0900000));  // R
    glyphs.push(build_glyph(5, 0x6090402090600000));  // S
    glyphs.push(build_glyph(5, 0x7020202020200000));  // T
    glyphs.push(build_glyph(5, 0x9090909090600000));  // U
    glyphs.push(build_glyph(5, 0x9090909060600000));  // V
    glyphs.push(build_glyph(5, 0x909090f0f0900000));  // W
    glyphs.push(build_glyph(5, 0x9090606090900000));  // X
    glyphs.push(build_glyph(5, 0x5050502020200000));  // Y
    glyphs.push(build_glyph(5, 0xf010204080f00000));  // Z
    glyphs.push(build_glyph(5, 0x7040404040700000));  // [
    glyphs.push(build_glyph(5, 0x0080402010000000));  // "\"
    glyphs.push(build_glyph(5, 0x7010101010700000));  // ]
    glyphs.push(build_glyph(5, 0x2050000000000000));  // ^
    glyphs.push(build_glyph(5, 0x0000000000f00000));  // _
    glyphs.push(build_glyph(5, 0x4020000000000000));  // `
    glyphs.push(build_glyph(5, 0x00007090b0500000));  // a
    glyphs.push(build_glyph(5, 0x8080e09090e00000));  // b
    glyphs.push(build_glyph(5, 0x0000608080600000));  // c
    glyphs.push(build_glyph(5, 0x1010709090700000));  // d
    glyphs.push(build_glyph(5, 0x000060b0c0600000));  // e
    glyphs.push(build_glyph(5, 0x205040e040400000));  // f
    glyphs.push(build_glyph(5, 0x0000709060807000));  // g
    glyphs.push(build_glyph(5, 0x8080e09090900000));  // h
    glyphs.push(build_glyph(5, 0x2000602020700000));  // i
    glyphs.push(build_glyph(5, 0x1000101010502000));  // j
    glyphs.push(build_glyph(5, 0x8080a0c0a0900000));  // k
    glyphs.push(build_glyph(5, 0x6020202020700000));  // l
    glyphs.push(build_glyph(5, 0x0000a0f090900000));  // m
    glyphs.push(build_glyph(5, 0x0000e09090900000));  // n
    glyphs.push(build_glyph(5, 0x0000609090600000));  // o
    glyphs.push(build_glyph(5, 0x0000e09090e08000));  // p
    glyphs.push(build_glyph(5, 0x0000709090701000));  // q
    glyphs.push(build_glyph(5, 0x0000e09080800000));  // r
    glyphs.push(build_glyph(5, 0x000070c030e00000));  // s
    glyphs.push(build_glyph(5, 0x4040e04040300000));  // t
    glyphs.push(build_glyph(5, 0x0000909090700000));  // u
    glyphs.push(build_glyph(5, 0x0000505050200000));  // v
    glyphs.push(build_glyph(5, 0x00009090f0f00000));  // w
    glyphs.push(build_glyph(5, 0x0000906060900000));  // x
    glyphs.push(build_glyph(5, 0x0000909050204000));  // y
    glyphs.push(build_glyph(5, 0x0000f02040f00000));  // z
    glyphs.push(build_glyph(5, 0x1020602020100000));  // {
    glyphs.push(build_glyph(5, 0x2020202020200000));  // |
    glyphs.push(build_glyph(5, 0x4020302020400000));  // }
    glyphs.push(build_glyph(5, 0x50a0000000000000));  // ~
    match Font::<95>::init(7, ' ', '~', '?', glyphs) {
        Some(f) => f,
        None => vstd::pervasive::unreached(),
    }
}

/// The 16-glyph alphabet of 6-row glyphs covering '0' through '?'.
pub fn alphabet_tiny() -> (r: Font<16>)
    ensures
        r.wf(),
        r.spec_height() == 6,
        r.spec_lower() == '0' as u8,
        r.spec_higher() == '?' as u8,
{
    let mut glyphs: Vec<Glyph> = Vec::new();
    glyphs.push(build_glyph(4, 0xe0a0a0a0e0000000));  // 0
    glyphs.push(build_glyph(4, 0x2020202020000000));  // 1
    glyphs.push(build_glyph(4, 0xe020e080e0000000));  // 2
    glyphs.push(build_glyph(4, 0xe020e020e0000000));  // 3
    glyphs.push(build_glyph(4, 0xa0a0e02020000000));  // 4
    glyphs.push(build_glyph(4, 0xe080e020e0000000));  // 5
    glyphs.push(build_glyph(4, 0xe080e0a0e0000000));  // 6
    glyphs.push(build_glyph(4, 0xe020202020000000));  // 7
    glyphs.push(build_glyph(4, 0xe0a0e0a0e0000000));  // 8
    glyphs.push(build_glyph(4, 0xe0a0e020e0000000));  // 9
    glyphs.push(build_glyph(4, 0x0040004000000000));  // :
    glyphs.push(build_glyph(4, 0x0000400040800000));  // ;
    glyphs.push(build_glyph(4, 0x2040804020000000));  // <
    glyphs.push(build_glyph(4, 0x00e000e000000000));  // =
    glyphs.push(build_glyph(4, 0x8040204080000000));  // >
    glyphs.push(build_glyph(4, 0x40a0204040000000));  // ?
    match Font::<16>::init(6, '0', '?', '?', glyphs) {
        Some(f) => f,
        None => vstd::pervasive::unreached(),
    }
}

/// The 16-glyph alphabet of 4-row glyphs covering '0' through '?'.
pub fn alphabet_nano() -> (r: Font<16>)
    ensures
        r.wf(),
        r.spec_height() == 4,
        r.spec_lower() == '0' as u8,
        r.spec_higher() == '?' as u8,
{
    let mut glyphs: Vec<Glyph> = Vec::new();
    glyphs.push(build_glyph(4, 0xe0a0a0e000000000));  // 0
    glyphs.push(build_glyph(4, 0x2020202000000000));  // 1
    glyphs.push(build_glyph(4, 0xe020c0e000000000));  // 2
    glyphs.push(build_glyph(4, 0xe06020e000000000));  // 3
    glyphs.push(build_glyph(4, 0xa0a0e02000000000));  // 4
    glyphs.push(build_glyph(4, 0xe0c020e000000000));  // 5
    glyphs.push(build_glyph(4, 0xe080e0e000000000));  // 6
    glyphs.push(build_glyph(4, 0xe020602000000000));  // 7
    glyphs.push(build_glyph(4, 0xe0e0a0e000000000));  // 8
    glyphs.push(build_glyph(4, 0xe0e020e000000000));  // 9
    glyphs.push(build_glyph(3, 0x4000400000000000));  // :
    glyphs.push(build_glyph(3, 0x4000406000000000));  // ;
    glyphs.push(build_glyph(3, 0x0060806000000000));  // <
    glyphs.push(build_glyph(4, 0xe000e00000000000));  // =
    glyphs.push(build_glyph(3, 0xc020c00000000000));  // >
    glyphs.push(build_glyph(4, 0xe020004000000000));  // ?
    match Font::<16>::init(4, '0', '?', '?', glyphs) {
        Some(f) => f,
        None => vstd::pervasive::unreached(),
    }
}

} // verus!
