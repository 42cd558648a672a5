//! A bounds-checked pixel surface with an off-screen buffer.
//!
//! The surface owns two equally sized buffers of 32-bit pixels laid out in
//! row-major order: an off-screen buffer that all drawing mutates, and the
//! visible buffer that `present` copies the off-screen contents into.  Every
//! write is bounds-checked against `width * height`; an out-of-range write is
//! a no-op and never touches neighbouring memory.
use vstd::prelude::*;
use vstd::pervasive::VecAdditionalExecFns;
use vstd::arithmetic::div_mod::lemma_fundamental_div_mod_converse;

verus! {

/// A pixel surface: dimensions, the visible buffer, and the off-screen
/// buffer that drawing targets.
#[derive(Debug)]
pub struct PixelSurface {
    /// Width in pixels.
    pub width: usize,
    /// Height in pixels.
    pub height: usize,
    /// The visible buffer, written only by `present`.
    pub front: Vec<u32>,
    /// The off-screen buffer that all drawing mutates.
    pub back: Vec<u32>,
}

/// The mathematical model of a surface: dimensions and the two buffers as
/// pixel sequences.
#[verifier::ext_equal]
pub struct SurfaceView {
    /// Width in pixels.
    pub width: nat,
    /// Height in pixels.
    pub height: nat,
    /// The visible buffer.
    pub front: Seq<u32>,
    /// The off-screen buffer.
    pub back: Seq<u32>,
}

impl View for PixelSurface {
    type V = SurfaceView;

    open spec fn view(&self) -> SurfaceView {
        SurfaceView {
            width: self.width as nat,
            height: self.height as nat,
            front: self.front@,
            back: self.back@,
        }
    }
}

/// The pixel of row-major buffer `buf` (of row length `width`) at column `x`
/// of row `y`.
pub open spec fn pixel_at(buf: Seq<u32>, width: int, x: int, y: int) -> u32 {
    buf[y * width + x]
}

impl SurfaceView {
    /// Both buffers hold exactly `width * height` pixels.
    pub open spec fn wf(self) -> bool {
        &&& self.front.len() == self.width * self.height
        &&& self.back.len() == self.width * self.height
    }

    /// The surface after a bounds-checked single-pixel write: the off-screen
    /// pixel at `(x, y)` becomes `color` when `(x, y)` is in range, and
    /// nothing at all changes when it is not.
    pub open spec fn written(self, x: int, y: int, color: u32) -> SurfaceView {
        if 0 <= x < self.width && 0 <= y < self.height {
            SurfaceView { back: self.back.update(y * self.width + x, color), ..self }
        } else {
            self
        }
    }

    /// The surface after the whole off-screen buffer is overwritten with
    /// `color`.
    pub open spec fn filled(self, color: u32) -> SurfaceView {
        SurfaceView { back: Seq::new(self.back.len(), |j: int| color), ..self }
    }

    /// The surface after the off-screen buffer is copied into the visible
    /// buffer.
    pub open spec fn presented(self) -> SurfaceView {
        SurfaceView { front: self.back, ..self }
    }

    /// The surface after all pixel rows move up by `r` rows: row `y` of the
    /// result is old row `y + r` for `y < height - r`, and the `r` newly
    /// exposed bottom rows hold `color`.
    pub open spec fn scrolled(self, r: int, color: u32) -> SurfaceView {
        SurfaceView {
            back: Seq::new(
                self.back.len(),
                |j: int|
                    if j < (self.height - r) * self.width {
                        self.back[j + r * self.width]
                    } else {
                        color
                    },
            ),
            ..self
        }
    }
}

/// In a row-major buffer of row length `width`, the index of column `x` of
/// row `y` lies inside the buffer, and decomposes back into `x` and `y`.
pub proof fn lemma_pixel_index(width: int, height: int, x: int, y: int)
    requires
        0 <= x < width,
        0 <= y < height,
    ensures
        0 <= y * width + x < width * height,
        (y * width + x) % width == x,
        (y * width + x) / width == y,
{
    assert(0 <= y * width + x && y * width + x < width * height) by (nonlinear_arith)
        requires
            0 <= x < width && 0 <= y < height,
    ;
    lemma_fundamental_div_mod_converse(y * width + x, width, y, x);
}

impl PixelSurface {
    /// Create a surface of the given dimensions with both buffers zeroed.
    pub fn new(width: usize, height: usize) -> (s: PixelSurface)
        requires
            width * height <= usize::MAX,
        ensures
            s@.wf(),
            s@.width == width,
            s@.height == height,
            s@.front =~= Seq::new((width * height) as nat, |j: int| 0u32),
            s@.back =~= Seq::new((width * height) as nat, |j: int| 0u32),
    {
        let len = width * height;
        let front = filled_vec(len, 0);
        let back = filled_vec(len, 0);
        PixelSurface { width, height, front, back }
    }

    /// Bounds-checked single-pixel write to the off-screen buffer; silently
    /// ignored when `(x, y)` is out of range.
    pub fn write_pixel(&mut self, x: usize, y: usize, color: u32)
        requires
            old(self)@.wf(),
        ensures
            final(self)@ =~= old(self)@.written(x as int, y as int, color),
            final(self)@.wf(),
    {
        if x < self.width && y < self.height {
            let len = self.back.len();
            proof {
                lemma_pixel_index(
                    self.width as int,
                    self.height as int,
                    x as int,
                    y as int,
                );
                assert(y * self.width + x < len);
            }
            let idx = y * self.width + x;
            self.back.set(idx, color);
        }
    }

    /// Overwrite every pixel of the off-screen buffer with `color`.
    pub fn fill(&mut self, color: u32)
        requires
            old(self)@.wf(),
        ensures
            final(self)@ =~= old(self)@.filled(color),
            final(self)@.wf(),
    {
        let len = self.back.len();
        let mut i: usize = 0;
        while i < len
            invariant
                len == self.back@.len(),
                i <= len,
                self.width == old(self).width,
                self.height == old(self).height,
                self.front@ == old(self).front@,
                forall|j: int| 0 <= j < i ==> self.back@[j] == color,
            decreases len - i,
        {
            self.back.set(i, color);
            i += 1;
        }
    }

    /// Copy the entire off-screen buffer into the visible buffer.
    pub fn present(&mut self)
        requires
            old(self)@.wf(),
        ensures
            final(self)@ =~= old(self)@.presented(),
            final(self)@.wf(),
    {
        let len = self.back.len();
        let mut i: usize = 0;
        while i < len
            invariant
                len == self.back@.len(),
                len == self.front@.len(),
                i <= len,
                self.width == old(self).width,
                self.height == old(self).height,
                self.back@ == old(self).back@,
                forall|j: int| 0 <= j < i ==> self.front@[j] == self.back@[j],
                forall|j: int| i <= j < len ==> self.front@[j] == old(self).front@[j],
            decreases len - i,
        {
            let v = self.back[i];
            self.front.set(i, v);
            i += 1;
        }
    }

    /// Move every pixel row up by `r` rows, discarding the top `r` rows and
    /// filling the newly exposed bottom rows with `color`.  The move is a
    /// forward shift, safe for the overlapping source and destination ranges.
    pub fn scroll_rows(&mut self, r: usize, color: u32)
        requires
            old(self)@.wf(),
        ensures
            final(self)@ =~= old(self)@.scrolled(r as int, color),
            final(self)@.wf(),
    {
        let len = self.back.len();
        if r >= self.height {
            proof {
                assert((self.height - r) * self.width <= 0) by (nonlinear_arith)
                    requires
                        self.height as int - r as int <= 0 && self.width >= 0,
                ;
            }
            self.fill(color);
            return;
        }
        let keep = self.height - r;
        proof {
            assert(keep * self.width <= self.width * self.height && r * self.width
                <= self.width * self.height && keep * self.width + r * self.width
                == self.width * self.height && (self.height - r as int) * self.width
                == keep * self.width) by (nonlinear_arith)
                requires
                    keep == self.height - r && 0 <= r && 0 <= self.width,
            ;
            assert(self.width * self.height == len);
        }
        let move_count = keep * self.width;
        let shift = r * self.width;
        let mut i: usize = 0;
        while i < move_count
            invariant
                len == self.back@.len(),
                len == old(self).back@.len(),
                move_count + shift == len,
                i <= move_count,
                self.width == old(self).width,
                self.height == old(self).height,
                self.front@ == old(self).front@,
                forall|j: int| 0 <= j < i ==> self.back@[j] == old(self).back@[j + shift],
                forall|j: int| i <= j < len ==> self.back@[j] == old(self).back@[j],
            decreases move_count - i,
        {
            let v = self.back[i + shift];
            self.back.set(i, v);
            i += 1;
        }
        let mut k: usize = move_count;
        while k < len
            invariant
                len == self.back@.len(),
                len == old(self).back@.len(),
                move_count + shift == len,
                move_count <= k <= len,
                self.width == old(self).width,
                self.height == old(self).height,
                self.front@ == old(self).front@,
                forall|j: int| 0 <= j < move_count ==> self.back@[j] == old(self).back@[j + shift],
                forall|j: int| move_count <= j < k ==> self.back@[j] == color,
                forall|j: int| k <= j < len ==> self.back@[j] == old(self).back@[j],
            decreases len - k,
        {
            self.back.set(k, color);
            k += 1;
        }
    }

    /// Read the off-screen pixel at `(x, y)`.
    pub fn pixel(&self, x: usize, y: usize) -> (p: u32)
        requires
            self@.wf(),
            x < self@.width,
            y < self@.height,
        ensures
            p == pixel_at(self@.back, self@.width as int, x as int, y as int),
    {
        let len = self.back.len();
        proof {
            lemma_pixel_index(self.width as int, self.height as int, x as int, y as int);
            assert(y * self.width + x < len);
        }
        self.back[y * self.width + x]
    }

    /// Read the visible pixel at `(x, y)`.
    pub fn front_pixel(&self, x: usize, y: usize) -> (p: u32)
        requires
            self@.wf(),
            x < self@.width,
            y < self@.height,
        ensures
            p == pixel_at(self@.front, self@.width as int, x as int, y as int),
    {
        let len = self.front.len();
        proof {
            lemma_pixel_index(self.width as int, self.height as int, x as int, y as int);
            assert(y * self.width + x < len);
        }
        self.front[y * self.width + x]
    }
}

/// Filling is idempotent: filling an already filled surface with the same
/// color changes nothing.
pub proof fn lemma_fill_idempotent(s: SurfaceView, color: u32)
    ensures
        s.filled(color).filled(color) == s.filled(color),
{
    assert(s.filled(color).filled(color) =~= s.filled(color));
}

/// A bounds-checked write round-trips: after an in-range write of `color` at
/// `(x, y)`, that pixel reads back as `color` and every other in-range pixel
/// is unchanged; an out-of-range write changes nothing at all.
pub proof fn lemma_write_pixel_round_trip(s: SurfaceView, x: int, y: int, color: u32)
    requires
        s.wf(),
    ensures
        0 <= x < s.width && 0 <= y < s.height ==> pixel_at(
            s.written(x, y, color).back,
            s.width as int,
            x,
            y,
        ) == color,
        forall|x2: int, y2: int|
            0 <= x2 < s.width && 0 <= y2 < s.height && !(x2 == x && y2 == y)
                ==> #[trigger] pixel_at(s.written(x, y, color).back, s.width as int, x2, y2)
                == pixel_at(s.back, s.width as int, x2, y2),
        !(0 <= x < s.width && 0 <= y < s.height) ==> s.written(x, y, color) == s,
{
    let w = s.width as int;
    let h = s.height as int;
    if 0 <= x < w && 0 <= y < h {
        lemma_pixel_index(w, h, x, y);
        assert forall|x2: int, y2: int|
            0 <= x2 < w && 0 <= y2 < h && !(x2 == x && y2 == y) implies #[trigger] pixel_at(
            s.written(x, y, color).back,
            w,
            x2,
            y2,
        ) == pixel_at(s.back, w, x2, y2) by {
            lemma_pixel_index(w, h, x2, y2);
            if y2 * w + x2 == y * w + x {
                assert(x2 == x && y2 == y);
            }
        }
    }
}

/// Scrolling is exact: after `scrolled(r, color)`, row `y` equals old row
/// `y + r` for `y < height - r`, and every pixel of the bottom `r` rows holds
/// `color`.
pub proof fn lemma_scroll_rows(s: SurfaceView, r: int, color: u32)
    requires
        s.wf(),
        0 <= r,
    ensures
        forall|x: int, y: int|
            0 <= x < s.width && 0 <= y < s.height - r ==> #[trigger] pixel_at(
                s.scrolled(r, color).back,
                s.width as int,
                x,
                y,
            ) == pixel_at(s.back, s.width as int, x, y + r),
        forall|x: int, y: int|
            0 <= x < s.width && 0 <= y < s.height && s.height - r <= y ==> #[trigger] pixel_at(
                s.scrolled(r, color).back,
                s.width as int,
                x,
                y,
            ) == color,
{
    let w = s.width as int;
    let h = s.height as int;
    assert forall|x: int, y: int| 0 <= x < w && 0 <= y < h - r implies #[trigger] pixel_at(
        s.scrolled(r, color).back,
        w,
        x,
        y,
    ) == pixel_at(s.back, w, x, y + r) by {
        lemma_pixel_index(w, h, x, y);
        assert(y * w + x < (h - r) * w) by (nonlinear_arith)
            requires
                0 <= x < w && 0 <= y && y < h - r,
        ;
        assert((y * w + x) + r * w == (y + r) * w + x) by (nonlinear_arith);
    }
    assert forall|x: int, y: int| 0 <= x < w && 0 <= y < h && h - r <= y implies #[trigger] pixel_at(
        s.scrolled(r, color).back,
        w,
        x,
        y,
    ) == color by {
        lemma_pixel_index(w, h, x, y);
        assert((h - r) * w <= y * w + x) by (nonlinear_arith)
            requires
                0 <= x && h - r <= y && 0 <= w,
        ;
    }
}

/// Build a vector of `n` copies of `value`.
fn filled_vec(n: usize, value: u32) -> (v: Vec<u32>)
    ensures
        v@ =~= Seq::new(n as nat, |j: int| value),
{
    let mut v: Vec<u32> = Vec::new();
    let mut i: usize = 0;
    while i < n
        invariant
            i <= n,
            v@ =~= Seq::new(i as nat, |j: int| value),
        decreases n - i,
    {
        v.push(value);
        i += 1;
    }
    v
}

} // verus!
