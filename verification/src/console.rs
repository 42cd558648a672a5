//! The text console: a cursor over a pixel surface with an attached font.
//!
//! The console draws characters onto the off-screen buffer of its surface,
//! advancing the cursor, wrapping at the right edge, and scrolling one text
//! row when a draw would run past the bottom.  Glyph pixels are rendered
//! transparently: only set bits paint the foreground color, unset bits leave
//! the backdrop alone.
use vstd::prelude::*;
use vstd::arithmetic::div_mod::lemma_fundamental_div_mod;
use vstd::string::StrSliceExecFns;
use crate::font::{Font, FontView};
use crate::surface::{PixelSurface, SurfaceView, lemma_pixel_index};

verus! {

/// A text cursor that owns the surface it draws on and, optionally, a font.
#[derive(Debug)]
pub struct Cursor {
    /// Current horizontal pixel position.
    pub x: usize,
    /// Current vertical pixel position.
    pub y: usize,
    /// Background color, used when scrolling exposes fresh rows.
    pub color_bg: u32,
    /// Foreground color, painted for set glyph bits.
    pub color_fg: u32,
    /// The surface drawn on.
    pub surface: PixelSurface,
    /// The font used to render characters, when one is attached.
    pub font: Option<Font>,
    /// Whether the off-screen buffer has changed since the last blit.
    pub dirty: bool,
}

/// The mathematical model of the console state.
#[verifier::ext_equal]
pub struct ConsoleView {
    /// Current horizontal pixel position.
    pub x: nat,
    /// Current vertical pixel position.
    pub y: nat,
    /// Background color.
    pub bg: u32,
    /// Foreground color.
    pub fg: u32,
    /// The surface drawn on.
    pub surface: SurfaceView,
    /// The attached font, if any.
    pub font: Option<FontView>,
    /// Whether the off-screen buffer has changed since the last blit.
    pub dirty: bool,
}

impl View for Cursor {
    type V = ConsoleView;

    open spec fn view(&self) -> ConsoleView {
        ConsoleView {
            x: self.x as nat,
            y: self.y as nat,
            bg: self.color_bg,
            fg: self.color_fg,
            surface: self.surface@,
            font: match self.font {
                Some(f) => Some(f@),
                None => None,
            },
            dirty: self.dirty,
        }
    }
}

/// Bytes per glyph scanline: the glyph width in pixels, rounded up to whole
/// bytes.
pub open spec fn bytes_per_row(w: int) -> int {
    (w + 7) / 8
}

/// Whether the glyph bitmap `glyph`, with `bpr` bytes per scanline, has the
/// bit for pixel column `px` of scanline `py` set.  Bits are MSB first; a
/// position beyond the bitmap counts as unset.
pub open spec fn glyph_bit(glyph: Seq<u8>, bpr: int, px: int, py: int) -> bool {
    let idx = py * bpr + px / 8;
    &&& 0 <= idx < glyph.len()
    &&& ((glyph[idx] >> ((7 - px % 8) as u8)) & 1) == 1
}

/// Whether glyph cell `(px, py)` comes before cell `(cpx, cpy)` in row-major
/// drawing order.
pub open spec fn cell_done(px: int, py: int, cpx: int, cpy: int) -> bool {
    py < cpy || (py == cpy && px < cpx)
}

/// The off-screen buffer after the glyph cells up to (but excluding) cell
/// `(cpx, cpy)` in row-major order have been drawn: every in-range pixel
/// under a set, already-drawn glyph bit holds `fg`; everything else is
/// untouched.  The glyph's top-left corner sits at `(x0, y0)`; writes that
/// fall outside the surface are dropped.
pub open spec fn draw_glyph_upto(
    back: Seq<u32>,
    width: int,
    x0: int,
    y0: int,
    gw: int,
    gh: int,
    glyph: Seq<u8>,
    fg: u32,
    cpy: int,
    cpx: int,
) -> Seq<u32> {
    Seq::new(
        back.len(),
        |j: int|
            {
                let x = j % width;
                let y = j / width;
                if width > 0 && x0 <= x < x0 + gw && y0 <= y < y0 + gh && cell_done(
                    x - x0,
                    y - y0,
                    cpx,
                    cpy,
                ) && glyph_bit(glyph, bytes_per_row(gw), x - x0, y - y0) {
                    fg
                } else {
                    back[j]
                }
            },
    )
}

/// The off-screen buffer after a whole glyph is drawn at `(x0, y0)`.
pub open spec fn draw_glyph(
    back: Seq<u32>,
    width: int,
    x0: int,
    y0: int,
    gw: int,
    gh: int,
    glyph: Seq<u8>,
    fg: u32,
) -> Seq<u32> {
    draw_glyph_upto(back, width, x0, y0, gw, gh, glyph, fg, gh, 0)
}

impl ConsoleView {
    /// The active glyph height: the font's, or a fixed fallback of 16 pixels
    /// when no font is attached, so that the console stays usable.
    pub open spec fn glyph_height(self) -> int {
        match self.font {
            Some(f) => f.height as int,
            None => 16,
        }
    }

    /// Well-formedness: the surface buffers match the dimensions, the cursor
    /// row is on the surface, and the dimensions leave room in the address
    /// space for glyph arithmetic (sums of a coordinate and a couple of glyph
    /// extents must fit in `usize`).
    pub open spec fn wf(self) -> bool {
        &&& self.surface.wf()
        &&& self.y <= self.surface.height
        &&& match self.font {
            Some(f) => {
                &&& self.surface.height + 2 * f.height <= usize::MAX
                &&& self.surface.width + 2 * f.width <= usize::MAX
                &&& (self.x <= self.surface.width || self.x <= f.width)
            },
            None => self.surface.height + 32 <= usize::MAX,
        }
    }

    /// The console after one scroll: the surface moves up one text row (the
    /// active glyph height), the exposed rows take the background color, and
    /// the cursor moves up the same amount (stopping at the top).
    pub open spec fn scrolled_console(self) -> ConsoleView {
        let gh = self.glyph_height();
        ConsoleView {
            y: if self.y >= gh {
                (self.y - gh) as nat
            } else {
                0
            },
            surface: self.surface.scrolled(gh, self.bg),
            dirty: true,
            ..self
        }
    }

    /// Scroll only when the next text row would run past the bottom of the
    /// surface.
    pub open spec fn maybe_scroll(self) -> ConsoleView {
        if self.y + self.glyph_height() > self.surface.height {
            self.scrolled_console()
        } else {
            self
        }
    }

    /// The console after one character is drawn.
    ///
    /// A newline resets the column and advances one text row.  A printable
    /// character needs an attached font and an in-range glyph; otherwise it
    /// is skipped without any state change.  When the glyph would run past
    /// the right edge the cursor first wraps to the next row.  The glyph's
    /// set bits paint the foreground color; the cursor then advances by the
    /// glyph width.  Either way, if the row after the draw no longer leaves
    /// room for a full glyph, the console scrolls once.
    pub open spec fn draw_char_spec(self, c: char) -> ConsoleView {
        let gh = self.glyph_height();
        if c == '\n' {
            (ConsoleView { x: 0, y: (self.y + gh) as nat, dirty: true, ..self }).maybe_scroll()
        } else {
            match self.font {
                None => self,
                Some(f) => {
                    if !f.glyph_in_range(c) {
                        self
                    } else {
                        let gw = f.width as int;
                        let wrap = self.x + gw > self.surface.width;
                        let x0: int = if wrap {
                            0
                        } else {
                            self.x as int
                        };
                        let y0: int = if wrap {
                            self.y + gh
                        } else {
                            self.y as int
                        };
                        let back2 = draw_glyph(
                            self.surface.back,
                            self.surface.width as int,
                            x0,
                            y0,
                            gw,
                            f.height as int,
                            f.glyph_seq(c),
                            self.fg,
                        );
                        (ConsoleView {
                            x: (x0 + gw) as nat,
                            y: y0 as nat,
                            surface: SurfaceView { back: back2, ..self.surface },
                            dirty: true,
                            ..self
                        }).maybe_scroll()
                    }
                },
            }
        }
    }

    /// The console after the first `n` characters of `cs` are drawn in order.
    pub open spec fn write_chars_upto(self, cs: Seq<char>, n: int) -> ConsoleView
        decreases n,
    {
        if n <= 0 {
            self
        } else {
            self.write_chars_upto(cs, n - 1).draw_char_spec(cs[n - 1])
        }
    }

    /// The console after every character of `cs` is drawn in order.
    pub open spec fn write_chars(self, cs: Seq<char>) -> ConsoleView {
        self.write_chars_upto(cs, cs.len() as int)
    }

    /// The console after a clear: the background color is set and the whole
    /// off-screen buffer takes it; the cursor does not move.
    pub open spec fn cleared(self, color: u32) -> ConsoleView {
        ConsoleView { bg: color, surface: self.surface.filled(color), dirty: true, ..self }
    }

    /// The console after the off-screen buffer is copied to the visible one.
    pub open spec fn blitted(self) -> ConsoleView {
        ConsoleView { surface: self.surface.presented(), ..self }
    }

    /// The console after a bounds-checked single-pixel write; the dirty flag
    /// is raised only when the pixel was really written.
    pub open spec fn pixel_written(self, x: int, y: int, color: u32) -> ConsoleView {
        ConsoleView {
            surface: self.surface.written(x, y, color),
            dirty: if 0 <= x < self.surface.width && 0 <= y < self.surface.height {
                true
            } else {
                self.dirty
            },
            ..self
        }
    }
}

/// A row-major buffer index decomposes into a column below `width` and a row
/// below `height`.
proof fn lemma_index_cell(width: int, height: int, j: int)
    requires
        0 <= j < width * height,
        0 <= width,
        0 <= height,
    ensures
        0 < width,
        0 <= j % width < width,
        0 <= j / width < height,
        j == (j / width) * width + (j % width),
{
    assert(0 < width) by (nonlinear_arith)
        requires
            0 <= j < width * height && 0 <= width,
    ;
    lemma_fundamental_div_mod(j, width);
    vstd::arithmetic::div_mod::lemma_mod_division_less_than_divisor(j, width);
    assert((j / width) * width == width * (j / width)) by (nonlinear_arith);
    assert(0 <= j / width < height) by (nonlinear_arith)
        requires
            0 < width && 0 <= j < width * height && j == width * (j / width) + (j % width) && 0 <= j
                % width < width,
    ;
}

/// Before any glyph cell is drawn, the buffer is untouched.
proof fn lemma_draw_upto_init(
    back: Seq<u32>,
    width: int,
    x0: int,
    y0: int,
    gw: int,
    gh: int,
    glyph: Seq<u8>,
    fg: u32,
)
    ensures
        draw_glyph_upto(back, width, x0, y0, gw, gh, glyph, fg, 0, 0) =~= back,
{
}

/// Finishing a glyph row is the same as standing at the start of the next.
proof fn lemma_draw_row_end(
    back: Seq<u32>,
    width: int,
    x0: int,
    y0: int,
    gw: int,
    gh: int,
    glyph: Seq<u8>,
    fg: u32,
    py: int,
)
    ensures
        draw_glyph_upto(back, width, x0, y0, gw, gh, glyph, fg, py, gw) =~= draw_glyph_upto(
            back,
            width,
            x0,
            y0,
            gw,
            gh,
            glyph,
            fg,
            py + 1,
            0,
        ),
{
    assert forall|j: int|
        0 <= j < back.len() implies draw_glyph_upto(back, width, x0, y0, gw, gh, glyph, fg, py, gw)[j]
        == draw_glyph_upto(back, width, x0, y0, gw, gh, glyph, fg, py + 1, 0)[j] by {
        let x = j % width;
        let y = j / width;
        assert(x0 <= x < x0 + gw ==> cell_done(x - x0, y - y0, gw, py) == cell_done(
            x - x0,
            y - y0,
            0,
            py + 1,
        ));
    }
}

/// Drawing one more glyph cell either updates exactly the one surface pixel
/// under that cell (when the cell is on the surface and its bit is set) or
/// changes nothing.
proof fn lemma_draw_step(
    back: Seq<u32>,
    width: int,
    height: int,
    x0: int,
    y0: int,
    gw: int,
    gh: int,
    glyph: Seq<u8>,
    fg: u32,
    py: int,
    px: int,
)
    requires
        back.len() == width * height,
        0 <= py < gh,
        0 <= px < gw,
        0 <= x0,
        0 <= y0,
        0 <= width,
        0 <= height,
    ensures
        draw_glyph_upto(back, width, x0, y0, gw, gh, glyph, fg, py, px + 1) =~= (if x0 + px < width
            && y0 + py < height && glyph_bit(glyph, bytes_per_row(gw), px, py) {
            draw_glyph_upto(back, width, x0, y0, gw, gh, glyph, fg, py, px).update(
                (y0 + py) * width + (x0 + px),
                fg,
            )
        } else {
            draw_glyph_upto(back, width, x0, y0, gw, gh, glyph, fg, py, px)
        }),
{
    let pre = draw_glyph_upto(back, width, x0, y0, gw, gh, glyph, fg, py, px);
    let post = draw_glyph_upto(back, width, x0, y0, gw, gh, glyph, fg, py, px + 1);
    if x0 + px < width && y0 + py < height && glyph_bit(glyph, bytes_per_row(gw), px, py) {
        lemma_pixel_index(width, height, x0 + px, y0 + py);
        let idx0 = (y0 + py) * width + (x0 + px);
        assert forall|j: int| 0 <= j < back.len() implies post[j] == pre.update(idx0, fg)[j] by {
            lemma_index_cell(width, height, j);
            let x = j % width;
            let y = j / width;
            if x == x0 + px && y == y0 + py {
                assert(j == idx0);
                assert(post[j] == fg);
            } else {
                assert(j != idx0);
                assert(x0 <= x < x0 + gw && y0 <= y < y0 + gh ==> cell_done(
                    x - x0,
                    y - y0,
                    px + 1,
                    py,
                ) == cell_done(x - x0, y - y0, px, py));
            }
        }
        assert(post =~= pre.update(idx0, fg));
    } else {
        assert forall|j: int| 0 <= j < back.len() implies post[j] == pre[j] by {
            lemma_index_cell(width, height, j);
            let x = j % width;
            let y = j / width;
            if x == x0 + px && y == y0 + py {
                assert(!glyph_bit(glyph, bytes_per_row(gw), px, py));
            } else {
                assert(x0 <= x < x0 + gw && y0 <= y < y0 + gh ==> cell_done(
                    x - x0,
                    y - y0,
                    px + 1,
                    py,
                ) == cell_done(x - x0, y - y0, px, py));
            }
        }
        assert(post =~= pre);
    }
}

/// A scroll decision starting from a row at most one text row below the
/// bottom leaves a well-formed console.
proof fn lemma_maybe_scroll_wf(v: ConsoleView)
    requires
        v.surface.wf(),
        v.y <= v.surface.height + v.glyph_height(),
        match v.font {
            Some(f) => {
                &&& v.surface.height + 2 * f.height <= usize::MAX
                &&& v.surface.width + 2 * f.width <= usize::MAX
                &&& (v.x <= v.surface.width || v.x <= f.width)
            },
            None => v.surface.height + 32 <= usize::MAX,
        },
    ensures
        v.maybe_scroll().wf(),
{
}

/// Drawing a character preserves console well-formedness.
proof fn lemma_draw_char_wf(v: ConsoleView, c: char)
    requires
        v.wf(),
    ensures
        v.draw_char_spec(c).wf(),
{
    let gh = v.glyph_height();
    if c == '\n' {
        let v1 = ConsoleView { x: 0, y: (v.y + gh) as nat, dirty: true, ..v };
        lemma_maybe_scroll_wf(v1);
    } else {
        match v.font {
            None => {},
            Some(f) => {
                if f.glyph_in_range(c) {
                    let gw = f.width as int;
                    let wrap = v.x + gw > v.surface.width;
                    let x0: int = if wrap {
                        0
                    } else {
                        v.x as int
                    };
                    let y0: int = if wrap {
                        v.y + gh
                    } else {
                        v.y as int
                    };
                    let back2 = draw_glyph(
                        v.surface.back,
                        v.surface.width as int,
                        x0,
                        y0,
                        gw,
                        f.height as int,
                        f.glyph_seq(c),
                        v.fg,
                    );
                    let v2 = ConsoleView {
                        x: (x0 + gw) as nat,
                        y: y0 as nat,
                        surface: SurfaceView { back: back2, ..v.surface },
                        dirty: true,
                        ..v
                    };
                    lemma_maybe_scroll_wf(v2);
                }
            },
        }
    }
}

impl Cursor {
    /// Well-formedness of the console state; see `ConsoleView::wf`.
    pub open spec fn wf(&self) -> bool {
        self@.wf()
    }

    /// Create a console over a fresh zeroed surface of the given dimensions,
    /// with the cursor at the origin, default colors, and no font attached.
    pub fn new(width: usize, height: usize) -> (c: Cursor)
        requires
            width * height <= usize::MAX,
            height + 32 <= usize::MAX,
        ensures
            c.wf(),
            c@.x == 0,
            c@.y == 0,
            c@.bg == 0x1a1b26,
            c@.fg == 0xc0caf5,
            c@.font.is_none(),
            c@.dirty == true,
            c@.surface.width == width,
            c@.surface.height == height,
            c@.surface.front =~= Seq::new((width * height) as nat, |j: int| 0u32),
            c@.surface.back =~= Seq::new((width * height) as nat, |j: int| 0u32),
    {
        Cursor {
            x: 0,
            y: 0,
            color_bg: 0x1a1b26,
            color_fg: 0xc0caf5,
            surface: PixelSurface::new(width, height),
            font: None,
            dirty: true,
        }
    }

    /// Copy the off-screen buffer into the visible surface verbatim.
    pub fn blit(&mut self)
        requires
            old(self)@.surface.wf(),
        ensures
            final(self)@ =~= old(self)@.blitted(),
    {
        self.surface.present();
    }

    /// Set the background color and fill the whole off-screen buffer with
    /// it; the cursor position is unaffected.
    pub fn clear(&mut self, color: u32)
        requires
            old(self)@.surface.wf(),
        ensures
            final(self)@ =~= old(self)@.cleared(color),
    {
        self.color_bg = color;
        self.surface.fill(color);
        self.dirty = true;
    }

    /// Bounds-checked single-pixel write to the off-screen buffer; an
    /// out-of-range write is silently ignored.
    pub fn write_pixel(&mut self, x: usize, y: usize, color: u32)
        requires
            old(self)@.surface.wf(),
        ensures
            final(self)@ =~= old(self)@.pixel_written(x as int, y as int, color),
    {
        if x < self.surface.width && y < self.surface.height {
            self.surface.write_pixel(x, y, color);
            self.dirty = true;
        }
    }

    /// Scroll one text row: move every pixel row up by the active glyph
    /// height, fill the exposed bottom rows with the background color, and
    /// move the cursor up the same amount (stopping at the top).
    pub fn scroll_up(&mut self)
        requires
            old(self)@.surface.wf(),
        ensures
            final(self)@ =~= old(self)@.scrolled_console(),
    {
        let gh: usize = match &self.font {
            Some(f) => f.header.height as usize,
            None => 16,
        };
        let bg = self.color_bg;
        self.surface.scroll_rows(gh, bg);
        if self.y >= gh {
            self.y = self.y - gh;
        } else {
            self.y = 0;
        }
        self.dirty = true;
    }

    /// Draw one character at the cursor and advance it; see
    /// `ConsoleView::draw_char_spec` for the exact effect.
    ///
    /// The glyph bitmap is copied out of the font before any pixel write, so
    /// the draw loop never needs the font and the surface borrowed at once.
    #[verifier::loop_isolation(false)]
    pub fn draw_char(&mut self, c: char)
        requires
            old(self).wf(),
        ensures
            final(self)@ =~= old(self)@.draw_char_spec(c),
            final(self).wf(),
    {
        proof {
            lemma_draw_char_wf(old(self)@, c);
        }
        let gh: usize = match &self.font {
            Some(f) => f.header.height as usize,
            None => 16,
        };
        if c == '\n' {
            self.x = 0;
            self.y = self.y + gh;
            self.dirty = true;
            if self.y + gh > self.surface.height {
                self.scroll_up();
            }
            return;
        }
        let (gw, glyph): (usize, Vec<u8>) = match &self.font {
            None => {
                return;
            },
            Some(f) => match f.get_glyph(c) {
                Err(_) => {
                    return;
                },
                Ok(g) => (f.header.width as usize, g),
            },
        };
        let w = self.surface.width;
        let h = self.surface.height;
        let wrap = self.x + gw > w;
        let x0: usize = if wrap {
            0
        } else {
            self.x
        };
        let y0: usize = if wrap {
            self.y + gh
        } else {
            self.y
        };
        let fg = self.color_fg;
        let bpr64: u64 = (gw as u64 + 7) / 8;
        let ghost back0: Seq<u32> = self.surface.back@;
        let ghost gseq: Seq<u8> = glyph@;
        proof {
            lemma_draw_upto_init(back0, w as int, x0 as int, y0 as int, gw as int, gh as int, gseq, fg);
        }
        let mut py: usize = 0;
        while py < gh
            invariant
                py <= gh,
                self.x == old(self).x,
                self.y == old(self).y,
                self.color_fg == old(self).color_fg,
                self.color_bg == old(self).color_bg,
                self.dirty == old(self).dirty,
                self.font == old(self).font,
                self.surface.width == w,
                self.surface.height == h,
                self.surface.front@ == old(self).surface.front@,
                self.surface.back@.len() == back0.len(),
                self@.surface.wf(),
                self.surface.back@ =~= draw_glyph_upto(
                    back0,
                    w as int,
                    x0 as int,
                    y0 as int,
                    gw as int,
                    gh as int,
                    gseq,
                    fg,
                    py as int,
                    0,
                ),
            decreases gh - py,
        {
            let mut px: usize = 0;
            while px < gw
                invariant
                    px <= gw,
                    py < gh,
                    self.x == old(self).x,
                    self.y == old(self).y,
                    self.color_fg == old(self).color_fg,
                    self.color_bg == old(self).color_bg,
                    self.dirty == old(self).dirty,
                    self.font == old(self).font,
                    self.surface.width == w,
                    self.surface.height == h,
                    self.surface.front@ == old(self).surface.front@,
                    self.surface.back@.len() == back0.len(),
                    self@.surface.wf(),
                    self.surface.back@ =~= draw_glyph_upto(
                        back0,
                        w as int,
                        x0 as int,
                        y0 as int,
                        gw as int,
                        gh as int,
                        gseq,
                        fg,
                        py as int,
                        px as int,
                    ),
                decreases gw - px,
            {
                proof {
                    assert((py as u64) * bpr64 + (px as u64) / 8 < 0x8000_0000_0000_0000u64)
                        by (nonlinear_arith)
                        requires
                            py < 0x1_0000_0000u64 && bpr64 < 0x4000_0000u64 && (px as u64) / 8
                                <= 0x2000_0000_0000_0000u64,
                    ;
                }
                let idx64: u64 = (py as u64) * bpr64 + (px as u64) / 8;
                let byte: u8 = if idx64 < glyph.len() as u64 {
                    glyph[idx64 as usize]
                } else {
                    0u8
                };
                let shift: u8 = 7 - ((px % 8) as u8);
                let bit = ((byte >> shift) & 1) == 1;
                proof {
                    if idx64 >= glyph@.len() {
                        assert(((0u8 >> shift) & 1) == 0) by (bit_vector);
                    }
                    assert(bit == glyph_bit(gseq, bytes_per_row(gw as int), px as int, py as int));
                    lemma_draw_step(
                        back0,
                        w as int,
                        h as int,
                        x0 as int,
                        y0 as int,
                        gw as int,
                        gh as int,
                        gseq,
                        fg,
                        py as int,
                        px as int,
                    );
                }
                if bit {
                    self.surface.write_pixel(x0 + px, y0 + py, fg);
                }
                px += 1;
            }
            proof {
                lemma_draw_row_end(
                    back0,
                    w as int,
                    x0 as int,
                    y0 as int,
                    gw as int,
                    gh as int,
                    gseq,
                    fg,
                    py as int,
                );
            }
            py += 1;
        }
        self.x = x0 + gw;
        self.y = y0;
        self.dirty = true;
        if self.y + gh > self.surface.height {
            self.scroll_up();
        }
    }

    /// Draw every character of `s` in order; this is the console's sole
    /// ingestion point for text.
    pub fn write_str(&mut self, s: &str)
        requires
            old(self).wf(),
        ensures
            final(self)@ =~= old(self)@.write_chars(s@),
            final(self).wf(),
    {
        let n = s.unicode_len();
        let mut i: usize = 0;
        while i < n
            invariant
                i <= n,
                n == s@.len(),
                self.wf(),
                self@ =~= old(self)@.write_chars_upto(s@, i as int),
            decreases n - i,
        {
            let c = s.get_char(i);
            self.draw_char(c);
            i += 1;
        }
    }
}

} // verus!
