//! PSF2 bitmap-font parsing and glyph lookup.
//!
//! A font binary starts with a fixed header: a 4-byte magic, then seven
//! little-endian `u32` fields (version, header size, flags, glyph count,
//! bytes per glyph, glyph height, glyph width).  The glyph table begins at
//! the byte offset given by the header-size field and holds one fixed-size
//! bitmap per glyph, packed one bit per pixel, MSB first, row by row.
use vstd::prelude::*;

verus! {

/// The fixed-layout header at the start of a PSF2 font binary.
#[derive(Clone, Copy, Debug)]
pub struct Psf2Header {
    /// Format identifier; must equal the PSF2 magic.
    pub magic: [u8; 4],
    /// Format version.
    pub version: u32,
    /// Byte offset at which the glyph table begins.
    pub header_size: u32,
    /// Format flags (a Unicode table may follow the glyphs).
    pub flags: u32,
    /// Number of glyphs in the table.
    pub length: u32,
    /// Bytes per glyph: `height` scanlines of `(width + 7) / 8` bytes each.
    pub char_size: u32,
    /// Glyph height in pixels.
    pub height: u32,
    /// Glyph width in pixels.
    pub width: u32,
}

/// A parsed font: the header and an owned copy of the glyph table.
#[derive(Debug)]
pub struct Font {
    /// The parsed header.
    pub header: Psf2Header,
    /// Everything after the header: the glyph bitmaps (and, for some fonts,
    /// a trailing Unicode table, which glyph lookup never reaches).
    pub glyphs: Vec<u8>,
}

/// Failure of font parsing or glyph lookup.
#[derive(Clone, Copy, Debug, PartialEq, Eq, Structural)]
pub enum FontError {
    /// The magic does not match, or the binary is too short to hold a full
    /// header plus at least one glyph.
    InvalidFormat,
    /// The requested code point lies beyond the glyph table.
    OutOfRange,
}

/// The little-endian `u32` stored at byte offset `i` of `s`.
pub open spec fn le_u32(s: Seq<u8>, i: int) -> nat {
    (s[i] + s[i + 1] * 0x100 + s[i + 2] * 0x10000 + s[i + 3] * 0x1000000) as nat
}

/// Whether `s` starts with the 4-byte PSF2 magic.
pub open spec fn magic_ok(s: Seq<u8>) -> bool {
    s.len() >= 4 && s[0] == 0x72u8 && s[1] == 0xb5u8 && s[2] == 0x4au8 && s[3] == 0x86u8
}

/// Whether `s` is accepted by `Font::new`: the magic matches and the binary
/// holds a full header plus at least one glyph.
pub open spec fn parses(s: Seq<u8>) -> bool {
    &&& s.len() >= 32
    &&& magic_ok(s)
    &&& s.len() >= le_u32(s, 8) + le_u32(s, 20)
}

impl Psf2Header {
    /// Whether this header holds exactly the fields encoded in `s`.
    pub open spec fn matches_bytes(self, s: Seq<u8>) -> bool {
        &&& self.magic@ =~= s.subrange(0, 4)
        &&& self.version == le_u32(s, 4)
        &&& self.header_size == le_u32(s, 8)
        &&& self.flags == le_u32(s, 12)
        &&& self.length == le_u32(s, 16)
        &&& self.char_size == le_u32(s, 20)
        &&& self.height == le_u32(s, 24)
        &&& self.width == le_u32(s, 28)
    }
}

/// The mathematical model of a parsed font: the header fields and the glyph
/// table as a byte sequence.
#[verifier::ext_equal]
pub struct FontView {
    /// The 4-byte magic.
    pub magic: Seq<u8>,
    /// Format version.
    pub version: nat,
    /// Byte offset at which the glyph table began in the binary.
    pub header_size: nat,
    /// Format flags.
    pub flags: nat,
    /// Number of glyphs in the table.
    pub length: nat,
    /// Bytes per glyph.
    pub char_size: nat,
    /// Glyph height in pixels.
    pub height: nat,
    /// Glyph width in pixels.
    pub width: nat,
    /// The glyph table.
    pub glyphs: Seq<u8>,
}

impl FontView {
    /// Whether code point `c` has a full glyph inside the glyph table.
    pub open spec fn glyph_in_range(self, c: char) -> bool {
        (c as nat) * self.char_size + self.char_size <= self.glyphs.len()
    }

    /// The bitmap of code point `c`: `char_size` bytes out of the table.
    pub open spec fn glyph_seq(self, c: char) -> Seq<u8> {
        self.glyphs.subrange(
            (c as int) * self.char_size,
            (c as int) * self.char_size + self.char_size,
        )
    }
}

impl View for Font {
    type V = FontView;

    open spec fn view(&self) -> FontView {
        FontView {
            magic: self.header.magic@,
            version: self.header.version as nat,
            header_size: self.header.header_size as nat,
            flags: self.header.flags as nat,
            length: self.header.length as nat,
            char_size: self.header.char_size as nat,
            height: self.header.height as nat,
            width: self.header.width as nat,
            glyphs: self.glyphs@,
        }
    }
}

impl Font {
    /// Parse a font binary.
    ///
    /// Fails with `InvalidFormat` when the magic does not match or when the
    /// binary is too short to hold the 32-byte header plus one glyph beyond
    /// the header-size offset; otherwise returns the header together with an
    /// owned copy of everything after it.
    pub fn new(data: &[u8]) -> (r: Result<Font, FontError>)
        ensures
            match r {
                Ok(font) => {
                    &&& parses(data@)
                    &&& font.header.matches_bytes(data@)
                    &&& font.glyphs@ =~= data@.subrange(le_u32(data@, 8) as int, data@.len() as int)
                },
                Err(e) => {
                    &&& e == FontError::InvalidFormat
                    &&& !parses(data@)
                },
            },
    {
        if data.len() < 4 {
            return Err(FontError::InvalidFormat);
        }
        if !(data[0] == 0x72 && data[1] == 0xb5 && data[2] == 0x4a && data[3] == 0x86) {
            return Err(FontError::InvalidFormat);
        }
        if data.len() < 32 {
            return Err(FontError::InvalidFormat);
        }
        let header = Psf2Header {
            magic: [data[0], data[1], data[2], data[3]],
            version: read_u32_le(data, 4),
            header_size: read_u32_le(data, 8),
            flags: read_u32_le(data, 12),
            length: read_u32_le(data, 16),
            char_size: read_u32_le(data, 20),
            height: read_u32_le(data, 24),
            width: read_u32_le(data, 28),
        };
        if (data.len() as u64) < header.header_size as u64 + header.char_size as u64 {
            return Err(FontError::InvalidFormat);
        }
        let glyphs = copy_range(data, header.header_size as usize, data.len());
        Ok(Font { header, glyphs })
    }

    /// Look up the bitmap of code point `c`.
    ///
    /// Returns exactly `char_size` bytes in row-major, MSB-first bit order,
    /// or fails with `OutOfRange` when the glyph would reach beyond the table.
    pub fn get_glyph(&self, c: char) -> (r: Result<Vec<u8>, FontError>)
        ensures
            match r {
                Ok(glyph) => {
                    &&& self@.glyph_in_range(c)
                    &&& glyph@ =~= self@.glyph_seq(c)
                    &&& glyph@.len() == self@.char_size
                },
                Err(e) => {
                    &&& e == FontError::OutOfRange
                    &&& !self@.glyph_in_range(c)
                },
            },
    {
        let index = c as u64;
        let char_size = self.header.char_size as u64;
        proof {
            assert(index * char_size + char_size <= u64::MAX) by (nonlinear_arith)
                requires
                    index <= 0x10FFFFu64,
                    char_size <= 0xFFFF_FFFFu64,
            ;
        }
        let start = index * char_size;
        if start + char_size <= self.glyphs.len() as u64 {
            let glyph = copy_range(&self.glyphs, start as usize, (start + char_size) as usize);
            Ok(glyph)
        } else {
            Err(FontError::OutOfRange)
        }
    }
}

/// Every glyph that the header promises is really in range: a font whose
/// table holds `length * char_size` bytes can serve every code point below
/// `length`, and each lookup yields exactly `char_size` bytes.
pub proof fn lemma_glyph_table_complete(font: FontView, c: char)
    requires
        font.glyphs.len() >= font.length * font.char_size,
        (c as nat) < font.length,
    ensures
        font.glyph_in_range(c),
        font.glyph_seq(c).len() == font.char_size,
{
    assert((c as nat) * font.char_size + font.char_size <= font.length * font.char_size)
        by (nonlinear_arith)
        requires
            (c as nat) < font.length,
    ;
}

/// Read the little-endian `u32` at byte offset `i`.
fn read_u32_le(data: &[u8], i: usize) -> (r: u32)
    requires
        i + 4 <= data@.len(),
    ensures
        r == le_u32(data@, i as int),
{
    (data[i] as u32) + (data[i + 1] as u32) * 0x100 + (data[i + 2] as u32) * 0x10000 + (data[i
        + 3] as u32) * 0x1000000
}

/// Copy `data[start..end]` into an owned vector.
fn copy_range(data: &[u8], start: usize, end: usize) -> (r: Vec<u8>)
    requires
        start <= end <= data@.len(),
    ensures
        r@ =~= data@.subrange(start as int, end as int),
{
    let mut out: Vec<u8> = Vec::new();
    let mut i: usize = start;
    while i < end
        invariant
            start <= i <= end <= data@.len(),
            out@ =~= data@.subrange(start as int, i as int),
        decreases end - i,
    {
        out.push(data[i]);
        i += 1;
    }
    out
}

} // verus!
