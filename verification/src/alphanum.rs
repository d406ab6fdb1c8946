//! Multi-display rendering: fans a logical character window out across a
//! bank of four-cell display controllers and implements the marquee scroll.

use vstd::prelude::*;

verus! {

/// I2C address of the first display controller; controller `i` answers at
/// `DISP_I2C_ADDR + i`.
pub const DISP_I2C_ADDR: u8 = 112;

/// Character cells per display controller.
pub const LEDS_PER_DRIVER: usize = 4;

/// Hard cap on the number of controllers in one bank.
pub const MAX_DRIVERS: usize = 10;

/// The blank glyph (ASCII space): what a cell shows when nothing is written.
pub const BLANK: u8 = 32;

/// The glyph a received byte renders as: ASCII maps directly, anything else
/// is replaced by a blank cell so arbitrary input can never fault the
/// renderer.
pub open spec fn glyph_of(b: u8) -> u8 {
    if b < 128 {
        b
    } else {
        BLANK
    }
}

/// Glyph mapping lifted over a whole buffer.
pub open spec fn glyphs_of(s: Seq<u8>) -> Seq<u8> {
    s.map_values(|b: u8| glyph_of(b))
}

/// Maps a byte to the glyph its cell will show.
pub fn to_glyph(b: u8) -> (g: u8)
    ensures
        g == glyph_of(b),
{
    if b < 128 {
        b
    } else {
        BLANK
    }
}

/// Blank window of width `w`: what a freshly initialized bank shows.
pub open spec fn blanks(w: nat) -> Seq<u8> {
    Seq::new(w, |i: int| BLANK)
}

/// Dot flags after a frame write: a cell's dot is lit iff a flag sequence was
/// supplied and its entry is set; writing a character otherwise clears the
/// cell's dot segment.
pub open spec fn dot_flags_of(flags: Option<Seq<bool>>, w: nat) -> Seq<bool> {
    match flags {
        Option::Some(f) => f,
        Option::None => Seq::new(w, |i: int| false),
    }
}

/// The scroll stream of a marquee over `text` on a window of width `w`: `w`
/// leading blanks (the initial window), the text itself, then `w` trailing
/// blanks (the clear-at-end phase).
pub open spec fn padded(text: Seq<u8>, w: nat) -> Seq<u8> {
    blanks(w) + text + blanks(w)
}

/// The rendered frame after scroll step `k` (counting from 0): the window of
/// width `w` over the scroll stream, glyph-mapped.  Step `k` has inserted
/// byte `k` of the stream's text-and-trailing-blanks part at the window's
/// last cell.
pub open spec fn window_at(text: Seq<u8>, w: nat, k: int) -> Seq<u8> {
    glyphs_of(padded(text, w).subrange(k + 1, k + 1 + w))
}

/// Law: a marquee frame shows its text byte — for every text and every step
/// `k` within the text, frame `k` is a full window whose last cell holds the
/// glyph of text byte `k`.  Together with `marquee`'s frame-count clause this
/// says a scroll without clear-at-end yields exactly one such frame per byte.
pub proof fn lemma_marquee_frame_shows_text(text: Seq<u8>, w: nat, k: int)
    requires
        1 <= w,
        0 <= k < text.len(),
    ensures
        window_at(text, w, k).len() == w,
        window_at(text, w, k).last() == glyph_of(text[k]),
{
    assert(padded(text, w)[k + w as int] == text[k]);
}

/// Law: a marquee with clear-at-end goes fully blank — its final frame
/// (frame `len(text) + w - 1`, by `marquee`'s frame-count clause) holds the
/// blank glyph in every cell.
pub proof fn lemma_marquee_clear_ends_blank(text: Seq<u8>, w: nat, i: int)
    requires
        1 <= w,
        0 <= i < w,
    ensures
        window_at(text, w, text.len() + w - 1).len() == w,
        window_at(text, w, text.len() + w - 1)[i] == BLANK,
{
    assert(padded(text, w)[text.len() + w + i] == BLANK);
}

/// One static frame write: the visible cells are the glyphs of `buffer`, the
/// dots follow `flags`.  `display` establishes exactly this relation, so the
/// controller state after a frame is a function of the frame alone.
pub open spec fn displayed(
    cells: Seq<u8>,
    dots: Seq<bool>,
    buffer: Seq<u8>,
    flags: Option<Seq<bool>>,
) -> bool {
    &&& cells == glyphs_of(buffer)
    &&& dots == dot_flags_of(flags, buffer.len())
}

/// Law: `display` is idempotent — two frame writes with the same buffer and
/// flags leave the same controller frame-buffer state, whatever state each
/// started from.
pub proof fn lemma_display_idempotent(
    cells1: Seq<u8>,
    dots1: Seq<bool>,
    cells2: Seq<u8>,
    dots2: Seq<bool>,
    buffer: Seq<u8>,
    flags: Option<Seq<bool>>,
)
    requires
        displayed(cells1, dots1, buffer, flags),
        displayed(cells2, dots2, buffer, flags),
    ensures
        cells1 == cells2,
        dots1 == dots2,
{
}

/// Shifts every byte of `buffer` one position toward the head (the byte at
/// position 0 is discarded) and stores `b` in the freed last position: one
/// step of the marquee scroll.
pub fn shift_left_and_insert_last(b: u8, buffer: &mut Vec<u8>)
    requires
        old(buffer)@.len() >= 1,
    ensures
        final(buffer)@ == old(buffer)@.skip(1).push(b),
{
    let len = buffer.len();
    let mut n: usize = 1;
    while n < len
        invariant
            1 <= n <= len,
            len == buffer@.len(),
            forall|i: int| 0 <= i < n - 1 ==> buffer@[i] == old(buffer)@[i + 1],
            forall|i: int| n - 1 <= i < len ==> buffer@[i] == old(buffer)@[i],
        decreases len - n,
    {
        let moved = buffer[n];
        buffer.set(n - 1, moved);
        n += 1;
    }
    buffer.set(len - 1, b);
    proof {
        assert(buffer@ =~= old(buffer)@.skip(1).push(b));
    }
}

/// The renderer's model of an ordered bank of display controllers: how many
/// controllers it owns and the frame-buffer state (glyph and dot per cell)
/// each one currently shows.  The bus shell reads the per-controller frames
/// back and issues them as write transactions.
pub struct MultiDisplay {
    drivers: usize,
    cells: Vec<u8>,
    dots: Vec<bool>,
}

impl MultiDisplay {
    /// Number of display controllers in the bank.
    pub closed spec fn n(&self) -> nat {
        self.drivers as nat
    }

    /// Number of visible character cells across the whole bank.
    pub open spec fn width(&self) -> nat {
        self.n() * LEDS_PER_DRIVER as nat
    }

    /// The glyph each cell currently shows, head of the bank first.
    pub closed spec fn cells_view(&self) -> Seq<u8> {
        self.cells@
    }

    /// The dot segment state of each cell.
    pub closed spec fn dots_view(&self) -> Seq<bool> {
        self.dots@
    }

    /// Well-formedness: between 1 and 10 controllers, one glyph and one dot
    /// flag per cell, and every cell holds a displayable glyph.
    pub open spec fn wf(&self) -> bool {
        &&& 1 <= self.n() <= MAX_DRIVERS as nat
        &&& self.cells_view().len() == self.width()
        &&& self.dots_view().len() == self.width()
        &&& forall|i: int|
            0 <= i < self.cells_view().len() ==> self.cells_view()[i] == glyph_of(
                self.cells_view()[i],
            )
    }

    /// Builds the model of a bank of `drivers` controllers, all cells blank
    /// and all dots off — the state the bank shows once every controller has
    /// been initialized and switched on.  More than ten controllers is a
    /// construction-time fault, excluded here by contract.
    pub fn new(drivers: usize) -> (d: MultiDisplay)
        requires
            1 <= drivers <= MAX_DRIVERS,
        ensures
            d.wf(),
            d.n() == drivers,
            d.cells_view() == blanks(d.width()),
            d.dots_view() == dot_flags_of(Option::None, d.width()),
    {
        let width = drivers * LEDS_PER_DRIVER;
        let mut cells: Vec<u8> = Vec::new();
        let mut dots: Vec<bool> = Vec::new();
        while cells.len() < width
            invariant
                cells@.len() <= width,
                forall|i: int| 0 <= i < cells@.len() ==> cells@[i] == BLANK,
            decreases width - cells@.len(),
        {
            cells.push(BLANK);
        }
        while dots.len() < width
            invariant
                dots@.len() <= width,
                forall|i: int| 0 <= i < dots@.len() ==> dots@[i] == false,
            decreases width - dots@.len(),
        {
            dots.push(false);
        }
        let d = MultiDisplay { drivers, cells, dots };
        proof {
            assert(d.cells_view() =~= blanks(d.width()));
            assert(d.dots_view() =~= dot_flags_of(Option::None, d.width()));
        }
        d
    }

    /// Writes a static frame: `buffer` is split into one four-cell chunk per
    /// controller, each byte is rendered as its glyph (non-ASCII bytes as a
    /// blank cell), and a cell's dot is lit iff `enable_dot` supplies a true
    /// flag for it.
    pub fn display(&mut self, buffer: &[u8], enable_dot: Option<&[bool]>)
        requires
            old(self).wf(),
            buffer@.len() == old(self).width(),
            enable_dot is Some ==> enable_dot->0@.len() == old(self).width(),
        ensures
            final(self).wf(),
            final(self).n() == old(self).n(),
            displayed(
                final(self).cells_view(),
                final(self).dots_view(),
                buffer@,
                if enable_dot is Some {
                    Option::Some(enable_dot->0@)
                } else {
                    Option::<Seq<bool>>::None
                },
            ),
    {
        let ghost gflags: Option<Seq<bool>> = match enable_dot {
            Option::Some(f) => Option::Some(f@),
            Option::None => Option::None,
        };
        let ghost target_dots: Seq<bool> = dot_flags_of(gflags, old(self).width());
        let width = self.drivers * LEDS_PER_DRIVER;
        let mut i: usize = 0;
        while i < width
            invariant
                i <= width,
                width == old(self).width(),
                self.drivers == old(self).drivers,
                buffer@.len() == width,
                target_dots.len() == width,
                target_dots == dot_flags_of(gflags, width as nat),
                gflags == (match enable_dot {
                    Option::Some(f) => Option::Some(f@),
                    Option::None => Option::<Seq<bool>>::None,
                }),
                self.cells@.len() == width,
                self.dots@.len() == width,
                forall|j: int| 0 <= j < i ==> self.cells@[j] == glyph_of(buffer@[j]),
                forall|j: int| 0 <= j < i ==> self.dots@[j] == target_dots[j],
            decreases width - i,
        {
            let g = to_glyph(buffer[i]);
            self.cells.set(i, g);
            let flag = match enable_dot {
                Option::Some(flags) => flags[i],
                Option::None => false,
            };
            assert(flag == target_dots[i as int]);
            self.dots.set(i, flag);
            i += 1;
        }
        proof {
            assert(self.cells_view() =~= glyphs_of(buffer@));
            assert(self.dots_view() =~= target_dots);
        }
    }

    /// Scrolls `text` through the bank, one cell per step: each step shifts
    /// the window one position toward the head, inserts the next byte at the
    /// last cell and renders the window as a frame (no dots).  With
    /// `clear_end` the scroll continues for one full window of blanks so the
    /// text exits completely.  Returns the rendered frames in order; the bus
    /// shell writes each frame out and suspends for the step delay between
    /// frames, aborting on the first bus error.
    pub fn marquee(&mut self, text: &[u8], clear_end: bool) -> (frames: Vec<Vec<u8>>)
        requires
            old(self).wf(),
            text@.len() + MAX_DRIVERS * LEDS_PER_DRIVER <= usize::MAX,
        ensures
            final(self).wf(),
            final(self).n() == old(self).n(),
            frames@.len() == text@.len() + if clear_end {
                old(self).width()
            } else {
                0nat
            },
            forall|k: int|
                0 <= k < frames@.len() ==> frames@[k]@ == window_at(
                    text@,
                    old(self).width(),
                    k,
                ),
            frames@.len() > 0 ==> (final(self).cells_view() == frames@.last()@
                && final(self).dots_view() == dot_flags_of(Option::None, old(self).width())),
            frames@.len() == 0 ==> (final(self).cells_view() == old(self).cells_view()
                && final(self).dots_view() == old(self).dots_view()),
    {
        let ghost t = text@;
        let ghost w = old(self).width();
        let width = self.drivers * LEDS_PER_DRIVER;
        let mut window: Vec<u8> = Vec::new();
        while window.len() < width
            invariant
                window@.len() <= width,
                forall|i: int| 0 <= i < window@.len() ==> window@[i] == BLANK,
            decreases width - window@.len(),
        {
            window.push(BLANK);
        }
        proof {
            assert(window@ =~= padded(t, w).subrange(0, w as int));
        }
        let mut frames: Vec<Vec<u8>> = Vec::new();
        let len = text.len();
        let mut k: usize = 0;
        while k < len
            invariant
                k <= len,
                len == t.len(),
                t == text@,
                width == w,
                w == old(self).width(),
                self.drivers == old(self).drivers,
                self.wf(),
                window@.len() == w,
                window@ == padded(t, w).subrange(k as int, k + w),
                frames@.len() == k,
                forall|j: int| 0 <= j < k ==> frames@[j]@ == window_at(t, w, j),
                k > 0 ==> self.cells_view() == window_at(t, w, k - 1) && self.dots_view()
                    == dot_flags_of(Option::None, w),
                k == 0 ==> self.cells_view() == old(self).cells_view() && self.dots_view() == old(
                    self,
                ).dots_view(),
            decreases len - k,
        {
            let b = text[k];
            shift_left_and_insert_last(b, &mut window);
            proof {
                assert(padded(t, w)[k + w] == t[k as int]);
                assert(window@ =~= padded(t, w).subrange(k + 1, k + 1 + w));
            }
            self.display(window.as_slice(), Option::None);
            frames.push(self.window());
            k += 1;
        }
        if clear_end {
            let mut j: usize = 0;
            while j < width
                invariant
                    j <= width,
                    len == t.len(),
                    t == text@,
                    width == w,
                    w == old(self).width(),
                    self.drivers == old(self).drivers,
                    self.wf(),
                    window@.len() == w,
                    window@ == padded(t, w).subrange(len + j, len + j + w),
                    frames@.len() == len + j,
                    forall|i: int| 0 <= i < frames@.len() ==> frames@[i]@ == window_at(t, w, i),
                    len + j > 0 ==> self.cells_view() == window_at(t, w, len + j - 1)
                        && self.dots_view() == dot_flags_of(Option::None, w),
                    len + j == 0 ==> self.cells_view() == old(self).cells_view()
                        && self.dots_view() == old(self).dots_view(),
                decreases width - j,
            {
                shift_left_and_insert_last(BLANK, &mut window);
                proof {
                    assert(padded(t, w)[len + j + w] == BLANK);
                    assert(window@ =~= padded(t, w).subrange(len + j + 1, len + j + 1 + w));
                }
                self.display(window.as_slice(), Option::None);
                frames.push(self.window());
                j += 1;
            }
        }
        frames
    }

    /// The four glyphs controller `d` currently shows: the frame the bus
    /// shell writes to that controller.
    pub fn frame_cells(&self, d: usize) -> (frame: Vec<u8>)
        requires
            self.wf(),
            d < self.n(),
        ensures
            frame@ == self.cells_view().subrange(
                d * LEDS_PER_DRIVER as int,
                d * LEDS_PER_DRIVER as int + LEDS_PER_DRIVER as int,
            ),
    {
        let base = d * LEDS_PER_DRIVER;
        let mut frame: Vec<u8> = Vec::new();
        let mut i: usize = 0;
        while i < LEDS_PER_DRIVER
            invariant
                i <= LEDS_PER_DRIVER,
                base == d * LEDS_PER_DRIVER,
                d < self.n(),
                self.wf(),
                frame@.len() == i,
                forall|j: int| 0 <= j < i ==> frame@[j] == self.cells@[base + j],
            decreases LEDS_PER_DRIVER - i,
        {
            frame.push(self.cells[base + i]);
            i += 1;
        }
        proof {
            assert(frame@ =~= self.cells_view().subrange(
                d * LEDS_PER_DRIVER as int,
                d * LEDS_PER_DRIVER as int + LEDS_PER_DRIVER as int,
            ));
        }
        frame
    }

    /// The dot flags of controller `d`, parallel to `frame_cells`.
    pub fn frame_dots(&self, d: usize) -> (frame: Vec<bool>)
        requires
            self.wf(),
            d < self.n(),
        ensures
            frame@ == self.dots_view().subrange(
                d * LEDS_PER_DRIVER as int,
                d * LEDS_PER_DRIVER as int + LEDS_PER_DRIVER as int,
            ),
    {
        let base = d * LEDS_PER_DRIVER;
        let mut frame: Vec<bool> = Vec::new();
        let mut i: usize = 0;
        while i < LEDS_PER_DRIVER
            invariant
                i <= LEDS_PER_DRIVER,
                base == d * LEDS_PER_DRIVER,
                d < self.n(),
                self.wf(),
                frame@.len() == i,
                forall|j: int| 0 <= j < i ==> frame@[j] == self.dots@[base + j],
            decreases LEDS_PER_DRIVER - i,
        {
            frame.push(self.dots[base + i]);
            i += 1;
        }
        proof {
            assert(frame@ =~= self.dots_view().subrange(
                d * LEDS_PER_DRIVER as int,
                d * LEDS_PER_DRIVER as int + LEDS_PER_DRIVER as int,
            ));
        }
        frame
    }

    /// Copy of the whole visible window, head of the bank first.
    pub fn window(&self) -> (w: Vec<u8>)
        requires
            self.wf(),
        ensures
            w@ == self.cells_view(),
    {
        let mut w: Vec<u8> = Vec::new();
        let mut i: usize = 0;
        let len = self.cells.len();
        while i < len
            invariant
                i <= len,
                len == self.cells@.len(),
                w@.len() == i,
                forall|j: int| 0 <= j < i ==> w@[j] == self.cells@[j],
            decreases len - i,
        {
            w.push(self.cells[i]);
            i += 1;
        }
        proof {
            assert(w@ =~= self.cells_view());
        }
        w
    }

    /// Number of controllers, for the bus shell.
    pub fn driver_count(&self) -> (n: usize)
        ensures
            n == self.n(),
    {
        self.drivers
    }
}

} // verus!
