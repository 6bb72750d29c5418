//! The control surface's widget logic: buttons, sliders and the playlist,
//! drawing into a plain pixel buffer and reacting to mouse state.
//!
//! Every draw routine promises two things: the buffer never changes size,
//! and every pixel either keeps its old value or takes one of the colors
//! the widget paints. Mouse handling is pinned down exactly, so the
//! click/drag state machines can be checked against the contracts alone.

use font8x8::{UnicodeFonts, BASIC_FONTS};
use vstd::prelude::*;

use crate::fixed::SCALE;

verus! {

/// Upper bound on widget coordinates and buffer width, so that every pixel
/// index computation fits comfortably in `usize` on any platform.
pub const COORD_MAX: usize = 0x8000;

/// What font8x8 returns for a character: the 8x8 bitmap is a function of
/// the character alone.
pub uninterp spec fn glyph_of(c: char) -> Option<[u8; 8]>;

/// Relies on font8x8's `BASIC_FONTS.get`: the glyph bitmap of a character,
/// defined exactly for the 128 seven-bit code points.
#[verifier::external_body]
fn basic_glyph(c: char) -> (r: Option<[u8; 8]>)
    ensures
        r == glyph_of(c),
        r is Some <==> (c as u32) < 128,
{
    BASIC_FONTS.get(c)
}

/// Pixel index of row `py`, column `px` in a buffer of the given width;
/// the coordinate bounds keep the computation inside `usize` even on
/// 32-bit platforms.
pub fn pixel_index(py: usize, px: usize, width: usize) -> (idx: usize)
    requires
        py <= 0x1_0000,
        px <= 0x2_0000,
        width <= COORD_MAX,
    ensures
        idx == py * width + px,
{
    proof {
        assert(py * width <= 0x1_0000 * 0x8000) by (nonlinear_arith)
            requires
                py <= 0x1_0000,
                width <= 0x8000,
        ;
    }
    py * width + px
}

/// Whether `(x, y)` lies inside the rectangle at `(rx, ry)` of size
/// `rw` by `rh`.
pub open spec fn rect_contains(rx: int, ry: int, rw: int, rh: int, x: int, y: int) -> bool {
    rx <= x < rx + rw && ry <= y < ry + rh
}

/// Every pixel keeps its old value or was painted `ca` or `cb`.
pub open spec fn paints_only(old_buf: Seq<u32>, new_buf: Seq<u32>, ca: u32, cb: u32) -> bool {
    &&& new_buf.len() == old_buf.len()
    &&& forall|i: int|
        0 <= i < new_buf.len() ==> #[trigger] new_buf[i] == old_buf[i] || new_buf[i] == ca
            || new_buf[i] == cb
}

/// The glyph bit of character `c` at `(row, col)` is set.
pub open spec fn glyph_bit(c: char, row: int, col: int) -> bool {
    &&& glyph_of(c) is Some
    &&& (glyph_of(c)->Some_0@[row] >> (col as u8)) & 1 == 1
}

/// Drawing `text` at `(x, y)` into a buffer of the given width may paint
/// index `i`: some set glyph bit lands on it.
pub open spec fn text_paints(text: Seq<char>, x: int, y: int, width: int, i: int) -> bool {
    exists|k: int, row: int, col: int|
        #![trigger glyph_bit(text[k], row, col)]
        0 <= k < text.len() && 0 <= row < 8 && 0 <= col < 8 && glyph_bit(text[k], row, col) && i
            == (y + row) * width + (x + 8 * k + col)
}

/// Draw `text` in the 8x8 bitmap font with its top-left corner at `(x, y)`:
/// each set glyph bit paints one pixel `color`, characters advance eight
/// columns, characters outside the basic set are skipped (but still
/// advance), and pixels that would fall outside the buffer are dropped.
/// Only pixels under a set glyph bit can change, and they change to the
/// given color.
pub fn draw_text(
    buffer: &mut Vec<u32>,
    width: usize,
    x: usize,
    y: usize,
    text: &str,
    color: u32,
)
    requires
        width <= COORD_MAX,
        x <= 0x1_0000,
        y <= 0xf000,
        text@.len() <= 0x1000,
    ensures
        paints_only(old(buffer)@, final(buffer)@, color, color),
        forall|i: int|
            0 <= i < final(buffer).len() && final(buffer)@[i] != old(buffer)@[i]
                ==> final(buffer)@[i] == color && text_paints(
                text@,
                x as int,
                y as int,
                width as int,
                i,
            ),
{
    let n = text.unicode_len();
    let mut k: usize = 0;
    while k < n
        invariant
            k <= n,
            n == text@.len(),
            n <= 0x1000,
            x <= 0x1_0000,
            y <= 0xf000,
            width <= COORD_MAX,
            paints_only(old(buffer)@, buffer@, color, color),
            forall|i: int|
                0 <= i < buffer.len() && buffer@[i] != old(buffer)@[i] ==> buffer@[i] == color
                    && text_paints(text@, x as int, y as int, width as int, i),
        decreases n - k,
    {
        let c = text.get_char(k);
        if let Some(glyph) = basic_glyph(c) {
            let curr_x = x + 8 * k;
            let mut row: usize = 0;
            while row < 8
                invariant
                    row <= 8,
                    k < n == text@.len() <= 0x1000,
                    curr_x == x + 8 * k,
                    x <= 0x1_0000,
                    y <= 0xf000,
                    width <= COORD_MAX,
                    glyph_of(text@[k as int]) == Some(glyph),
                    paints_only(old(buffer)@, buffer@, color, color),
                    forall|i: int|
                        0 <= i < buffer.len() && buffer@[i] != old(buffer)@[i] ==> buffer@[i]
                            == color && text_paints(text@, x as int, y as int, width as int, i),
                decreases 8 - row,
            {
                let bits = glyph[row];
                let mut col: usize = 0;
                while col < 8
                    invariant
                        col <= 8,
                        row < 8,
                        k < n == text@.len() <= 0x1000,
                        curr_x == x + 8 * k,
                        x <= 0x1_0000,
                        y <= 0xf000,
                        width <= COORD_MAX,
                        glyph_of(text@[k as int]) == Some(glyph),
                        bits == glyph@[row as int],
                        paints_only(old(buffer)@, buffer@, color, color),
                        forall|i: int|
                            0 <= i < buffer.len() && buffer@[i] != old(buffer)@[i] ==> buffer@[i]
                                == color && text_paints(
                                text@,
                                x as int,
                                y as int,
                                width as int,
                                i,
                            ),
                    decreases 8 - col,
                {
                    if (bits >> (col as u8)) & 1 == 1 {
                        let px = curr_x + col;
                        let py = y + row;
                        let idx = pixel_index(py, px, width);
                        proof {
                            assert(glyph_bit(text@[k as int], row as int, col as int));
                            assert(text_paints(
                                text@,
                                x as int,
                                y as int,
                                width as int,
                                idx as int,
                            )) by {
                                assert(0 <= k < text@.len() && 0 <= row < 8 && 0 <= col < 8
                                    && glyph_bit(text@[k as int], row as int, col as int)
                                    && idx as int == (y + row) * (width as int) + (x + 8 * k
                                    + col));
                            }
                        }
                        if idx < buffer.len() {
                            buffer.set(idx, color);
                        }
                    }
                    col = col + 1;
                }
                row = row + 1;
            }
        }
        k = k + 1;
    }
}

/// The widget capability: paint into a frame buffer, react to the mouse,
/// report hover. Each concrete widget's methods carry exact contracts on
/// top of these minimal ones.
pub trait Widget: Sized {
    /// The widget's own well-formedness: geometry (and value) bounds.
    spec fn widget_wf(&self) -> bool;

    /// Paint the widget. The buffer's size never changes.
    fn draw(&self, buffer: &mut Vec<u32>, width: usize, height: usize, debug: bool)
        requires
            self.widget_wf(),
            width <= COORD_MAX,
        ensures
            final(buffer).len() == old(buffer).len(),
    ;

    /// React to the mouse; the result reports a click, a drag or a
    /// selection, depending on the widget.
    fn handle_mouse(&mut self, x: usize, y: usize, down: bool) -> (handled: bool)
        requires
            old(self).widget_wf(),
        ensures
            final(self).widget_wf(),
    ;

    /// Whether `(x, y)` lies on the widget.
    fn is_hovered(&self, x: usize, y: usize) -> (r: bool)
        requires
            self.widget_wf(),
    ;
}

/// A push button with a centered label. A click is reported on release
/// while hovered.
pub struct Button {
    pub x: usize,
    pub y: usize,
    pub w: usize,
    pub h: usize,
    pub label: String,
    pub pressed: bool,
}

impl Button {
    /// Geometry inside the coordinate bound.
    pub open spec fn wf(self) -> bool {
        &&& self.x + self.w <= COORD_MAX
        &&& self.y + self.h <= COORD_MAX
        &&& 1 <= self.w
        &&& 1 <= self.h
        &&& self.label@.len() <= 0x1000
    }

    /// A released button with the given geometry and label.
    pub fn new(x: usize, y: usize, w: usize, h: usize, label: &str) -> (b: Self)
        requires
            x + w <= COORD_MAX,
            y + h <= COORD_MAX,
            1 <= w,
            1 <= h,
            label@.len() <= 0x1000,
        ensures
            b.wf(),
            b.x == x && b.y == y && b.w == w && b.h == h,
            b.label@ == label@,
            !b.pressed,
    {
        Button { x, y, w, h, label: label.to_owned(), pressed: false }
    }
}

impl Widget for Button {
    open spec fn widget_wf(&self) -> bool {
        self.wf()
    }

    /// Paint the label (green while pressed, else white), and in debug mode
    /// an outline (green while pressed, else red).
    fn draw(&self, buffer: &mut Vec<u32>, width: usize, _height: usize, debug: bool)
        ensures
            paints_only(
                old(buffer)@,
                final(buffer)@,
                if self.pressed {
                    0x00FF00u32
                } else {
                    0xFFFFFFu32
                },
                if self.pressed {
                    0x00FF00u32
                } else {
                    0xFF0000u32
                },
            ),
    {
        let text_width = if self.label.as_str().len() > 0x1000 {
            0x8000
        } else {
            8 * self.label.as_str().len()
        };
        let text_x = self.x + (if self.w > text_width {
            (self.w - text_width) / 2
        } else {
            0
        });
        let text_y = self.y + (if self.h > 8 {
            (self.h - 8) / 2
        } else {
            0
        });
        let color: u32 = if self.pressed {
            0x00FF00
        } else {
            0xFFFFFF
        };
        draw_text(buffer, width, text_x, text_y, self.label.as_str(), color);
        if debug {
            let oc: u32 = if self.pressed {
                0x00FF00
            } else {
                0xFF0000
            };
            let mut i: usize = 0;
            while i < self.w
                invariant
                    self.wf(),
                    width <= COORD_MAX,
                    i <= self.w,
                    paints_only(
                        old(buffer)@,
                        buffer@,
                        if self.pressed {
                            0x00FF00u32
                        } else {
                            0xFFFFFFu32
                        },
                        oc,
                    ),
                decreases self.w - i,
            {
                let top = pixel_index(self.y, self.x + i, width);
                let bottom = pixel_index(self.y + self.h - 1, self.x + i, width);
                if top < buffer.len() {
                    buffer.set(top, oc);
                }
                if bottom < buffer.len() {
                    buffer.set(bottom, oc);
                }
                i = i + 1;
            }
            let mut j: usize = 0;
            while j < self.h
                invariant
                    self.wf(),
                    width <= COORD_MAX,
                    j <= self.h,
                    paints_only(
                        old(buffer)@,
                        buffer@,
                        if self.pressed {
                            0x00FF00u32
                        } else {
                            0xFFFFFFu32
                        },
                        oc,
                    ),
                decreases self.h - j,
            {
                let left = pixel_index(self.y + j, self.x, width);
                let right = pixel_index(self.y + j, self.x + self.w - 1, width);
                if left < buffer.len() {
                    buffer.set(left, oc);
                }
                if right < buffer.len() {
                    buffer.set(right, oc);
                }
                j = j + 1;
            }
        }
    }

    fn is_hovered(&self, x: usize, y: usize) -> (r: bool)
        ensures
            r == rect_contains(
                self.x as int,
                self.y as int,
                self.w as int,
                self.h as int,
                x as int,
                y as int,
            ),
    {
        x >= self.x && x < self.x + self.w && y >= self.y && y < self.y + self.h
    }

    /// The press state machine: press arms on a hovered push, a click is
    /// reported on a hovered release of an armed button, and any release
    /// disarms.
    fn handle_mouse(&mut self, x: usize, y: usize, down: bool) -> (clicked: bool)
        ensures
            final(self).x == old(self).x && final(self).y == old(self).y,
            final(self).w == old(self).w && final(self).h == old(self).h,
            final(self).label == old(self).label,
            ({
                let hovered = rect_contains(
                    old(self).x as int,
                    old(self).y as int,
                    old(self).w as int,
                    old(self).h as int,
                    x as int,
                    y as int,
                );
                &&& clicked == (!down && old(self).pressed && hovered)
                &&& final(self).pressed == (if down {
                    if hovered {
                        true
                    } else {
                        old(self).pressed
                    }
                } else {
                    false
                })
            }),
    {
        let hovered = x >= self.x && x < self.x + self.w && y >= self.y && y < self.y + self.h;
        if down && hovered {
            self.pressed = true;
            false
        } else if !down && self.pressed && hovered {
            self.pressed = false;
            true
        } else if !down {
            self.pressed = false;
            false
        } else {
            false
        }
    }
}

/// A horizontal or vertical slider whose position is a fixed-point fraction
/// between zero and one.
pub struct Slider {
    pub x: usize,
    pub y: usize,
    pub w: usize,
    pub h: usize,
    pub value: i64,
    pub vertical: bool,
    pub dragging: bool,
}

/// The value the slider takes when the mouse grabs it at `(mx, my)`: the
/// position along the track, clamped to the ends, as a fraction of the
/// track's span.
pub open spec fn slider_value_at(s: Slider, mx: int, my: int) -> int {
    let span = if s.vertical {
        s.h as int
    } else {
        s.w as int
    };
    let rel0 = if s.vertical {
        s.y + s.h - my
    } else {
        mx - s.x
    };
    let rel = if rel0 < 0 {
        0
    } else if rel0 > span {
        span
    } else {
        rel0
    };
    rel * SCALE / span
}

impl Slider {
    /// Geometry in bounds and the value a valid fraction.
    pub open spec fn wf(self) -> bool {
        &&& self.x + self.w <= COORD_MAX
        &&& self.y + self.h <= COORD_MAX
        &&& 1 <= self.w
        &&& 1 <= self.h
        &&& 0 <= self.value <= SCALE
    }

    /// A slider at the given position.
    pub fn new(x: usize, y: usize, w: usize, h: usize, initial: i64, vertical: bool) -> (s: Self)
        requires
            x + w <= COORD_MAX,
            y + h <= COORD_MAX,
            1 <= w,
            1 <= h,
            0 <= initial <= SCALE,
        ensures
            s.wf(),
            s.x == x && s.y == y && s.w == w && s.h == h,
            s.value == initial,
            s.vertical == vertical,
            !s.dragging,
    {
        Slider { x, y, w, h, value: initial, vertical, dragging: false }
    }
}

impl Widget for Slider {
    open spec fn widget_wf(&self) -> bool {
        self.wf()
    }

    /// In debug mode, paint the outline blue and the handle's row or column
    /// yellow; outside debug mode the skin already shows the slider.
    fn draw(&self, buffer: &mut Vec<u32>, width: usize, _height: usize, debug: bool)
        ensures
            paints_only(old(buffer)@, final(buffer)@, 0x0000FFu32, 0xFFFF00u32),
    {
        if debug {
            let oc: u32 = 0x0000FF;
            let mut i: usize = 0;
            while i < self.w
                invariant
                    oc == 0x0000FFu32,
                    self.wf(),
                    width <= COORD_MAX,
                    i <= self.w,
                    paints_only(old(buffer)@, buffer@, 0x0000FFu32, 0xFFFF00u32),
                decreases self.w - i,
            {
                let top = pixel_index(self.y, self.x + i, width);
                let bottom = pixel_index(self.y + self.h - 1, self.x + i, width);
                if top < buffer.len() {
                    buffer.set(top, oc);
                }
                if bottom < buffer.len() {
                    buffer.set(bottom, oc);
                }
                i = i + 1;
            }
            let mut j: usize = 0;
            while j < self.h
                invariant
                    oc == 0x0000FFu32,
                    self.wf(),
                    width <= COORD_MAX,
                    j <= self.h,
                    paints_only(old(buffer)@, buffer@, 0x0000FFu32, 0xFFFF00u32),
                decreases self.h - j,
            {
                let left = pixel_index(self.y + j, self.x, width);
                let right = pixel_index(self.y + j, self.x + self.w - 1, width);
                if left < buffer.len() {
                    buffer.set(left, oc);
                }
                if right < buffer.len() {
                    buffer.set(right, oc);
                }
                j = j + 1;
            }
            let hc: u32 = 0xFFFF00;
            if self.vertical {
                proof {
                    crate::fixed::lemma_abs_mul_le(
                        self.value as int,
                        self.h as int,
                        SCALE as int,
                        self.h as int,
                    );
                    crate::fixed::lemma_div_tz_bound(
                        self.value as int * self.h as int,
                        SCALE as int * self.h as int,
                        SCALE as int,
                    );
                    vstd::arithmetic::div_mod::lemma_div_multiples_vanish(
                        self.h as int,
                        SCALE as int,
                    );
                }
                let off = ((self.value * self.h as i64) / SCALE) as usize;
                let hy0 = self.y + self.h - (if off > self.h {
                    self.h
                } else {
                    off
                });
                let hy = if hy0 > self.y + self.h - 1 {
                    self.y + self.h - 1
                } else {
                    hy0
                };
                let mut i: usize = 0;
                while i < self.w
                    invariant
                        self.wf(),
                        width <= COORD_MAX,
                        hc == 0xFFFF00u32,
                        hy <= COORD_MAX,
                        i <= self.w,
                        paints_only(old(buffer)@, buffer@, 0x0000FFu32, 0xFFFF00u32),
                    decreases self.w - i,
                {
                    let idx = pixel_index(hy, self.x + i, width);
                    if idx < buffer.len() {
                        buffer.set(idx, hc);
                    }
                    i = i + 1;
                }
            } else {
                proof {
                    crate::fixed::lemma_abs_mul_le(
                        self.value as int,
                        self.w as int,
                        SCALE as int,
                        self.w as int,
                    );
                    crate::fixed::lemma_div_tz_bound(
                        self.value as int * self.w as int,
                        SCALE as int * self.w as int,
                        SCALE as int,
                    );
                    vstd::arithmetic::div_mod::lemma_div_multiples_vanish(
                        self.w as int,
                        SCALE as int,
                    );
                }
                let off = ((self.value * self.w as i64) / SCALE) as usize;
                let hx0 = self.x + (if off > self.w - 1 {
                    self.w - 1
                } else {
                    off
                });
                let mut j: usize = 0;
                while j < self.h
                    invariant
                        self.wf(),
                        width <= COORD_MAX,
                        hc == 0xFFFF00u32,
                        hx0 <= COORD_MAX,
                        j <= self.h,
                        paints_only(old(buffer)@, buffer@, 0x0000FFu32, 0xFFFF00u32),
                    decreases self.h - j,
                {
                    let idx = pixel_index(self.y + j, hx0, width);
                    if idx < buffer.len() {
                        buffer.set(idx, hc);
                    }
                    j = j + 1;
                }
            }
        }
    }

    fn is_hovered(&self, x: usize, y: usize) -> (r: bool)
        ensures
            r == rect_contains(
                self.x as int,
                self.y as int,
                self.w as int,
                self.h as int,
                x as int,
                y as int,
            ),
    {
        x >= self.x && x < self.x + self.w && y >= self.y && y < self.y + self.h
    }

    /// Dragging: a press on the track (or an ongoing drag) grabs the handle
    /// and moves the value to the mouse's position along the track; release
    /// lets go without moving the value.
    fn handle_mouse(&mut self, x: usize, y: usize, down: bool) -> (changed: bool)
        ensures
            final(self).x == old(self).x && final(self).y == old(self).y,
            final(self).w == old(self).w && final(self).h == old(self).h,
            final(self).vertical == old(self).vertical,
            ({
                let hovered = rect_contains(
                    old(self).x as int,
                    old(self).y as int,
                    old(self).w as int,
                    old(self).h as int,
                    x as int,
                    y as int,
                );
                if down && (hovered || old(self).dragging) {
                    &&& changed
                    &&& final(self).dragging
                    &&& final(self).value == slider_value_at(*old(self), x as int, y as int)
                } else {
                    &&& !changed
                    &&& final(self).value == old(self).value
                    &&& final(self).dragging == (down && old(self).dragging)
                }
            }),
            0 <= final(self).value <= SCALE,
    {
        let hovered = x >= self.x && x < self.x + self.w && y >= self.y && y < self.y + self.h;
        if down {
            if hovered || self.dragging {
                self.dragging = true;
                let span: usize = if self.vertical {
                    self.h
                } else {
                    self.w
                };
                let rel0: usize = if self.vertical {
                    (self.y + self.h).saturating_sub(y)
                } else {
                    x.saturating_sub(self.x)
                };
                let rel: usize = if rel0 > span {
                    span
                } else {
                    rel0
                };
                proof {
                    crate::fixed::lemma_abs_mul_le(
                        rel as int,
                        SCALE as int,
                        span as int,
                        SCALE as int,
                    );
                    vstd::arithmetic::div_mod::lemma_div_is_ordered(
                        rel as int * SCALE as int,
                        span as int * SCALE as int,
                        span as int,
                    );
                    vstd::arithmetic::div_mod::lemma_div_multiples_vanish(
                        SCALE as int,
                        span as int,
                    );
                    vstd::arithmetic::div_mod::lemma_div_pos_is_pos(
                        rel as int * SCALE as int,
                        span as int,
                    );
                }
                self.value = ((rel as i64) * SCALE) / (span as i64);
                true
            } else {
                false
            }
        } else {
            self.dragging = false;
            false
        }
    }
}

/// Code-point lexicographic order on strings: the order playlist entries
/// are kept in.
pub open spec fn lex_le(a: Seq<char>, b: Seq<char>) -> bool
    decreases a.len(),
{
    if a.len() == 0 {
        true
    } else if b.len() == 0 {
        false
    } else if (a[0] as u32) < (b[0] as u32) {
        true
    } else if (a[0] as u32) > (b[0] as u32) {
        false
    } else {
        lex_le(a.drop_first(), b.drop_first())
    }
}

/// The order is total: any two strings compare one way or the other.
pub proof fn lemma_lex_le_total(a: Seq<char>, b: Seq<char>)
    ensures
        lex_le(a, b) || lex_le(b, a),
    decreases a.len(),
{
    if a.len() != 0 && b.len() != 0 && (a[0] as u32) == (b[0] as u32) {
        lemma_lex_le_total(a.drop_first(), b.drop_first());
    }
}

/// The order is transitive.
pub proof fn lemma_lex_le_trans(a: Seq<char>, b: Seq<char>, c: Seq<char>)
    requires
        lex_le(a, b),
        lex_le(b, c),
    ensures
        lex_le(a, c),
    decreases a.len(),
{
    if a.len() != 0 {
        if (a[0] as u32) == (b[0] as u32) && (b[0] as u32) == (c[0] as u32) {
            lemma_lex_le_trans(a.drop_first(), b.drop_first(), c.drop_first());
        }
    }
}

/// Compare the tails of two strings from position `i` on, in code-point
/// order.
fn str_le_from(a: &String, b: &String, i: usize) -> (r: bool)
    requires
        i <= a@.len(),
        i <= b@.len(),
    ensures
        r == lex_le(a@.skip(i as int), b@.skip(i as int)),
    decreases a@.len() - i,
{
    let na = a.as_str().unicode_len();
    let nb = b.as_str().unicode_len();
    if i == na {
        true
    } else if i == nb {
        false
    } else {
        let ca = a.as_str().get_char(i);
        let cb = b.as_str().get_char(i);
        proof {
            assert(a@.skip(i as int)[0] == a@[i as int]);
            assert(b@.skip(i as int)[0] == b@[i as int]);
            assert(a@.skip(i as int).drop_first() =~= a@.skip(i as int + 1));
            assert(b@.skip(i as int).drop_first() =~= b@.skip(i as int + 1));
        }
        if (ca as u32) < (cb as u32) {
            true
        } else if (ca as u32) > (cb as u32) {
            false
        } else {
            str_le_from(a, b, i + 1)
        }
    }
}

/// Whether `a` sorts at or before `b`.
fn str_le(a: &String, b: &String) -> (r: bool)
    ensures
        r == lex_le(a@, b@),
{
    proof {
        assert(a@.skip(0) =~= a@);
        assert(b@.skip(0) =~= b@);
    }
    str_le_from(a, b, 0)
}

/// Every pair of entries in order.
pub open spec fn strings_sorted(s: Seq<String>) -> bool {
    forall|i: int, j: int| 0 <= i < j < s.len() ==> #[trigger] lex_le(s[i]@, s[j]@)
}

/// The position in a sorted vector before which every entry sorts at or
/// before `x`, and from which the next entry (if any) sorts after `x`.
fn lower_pos(out: &Vec<String>, x: &String) -> (j: usize)
    requires
        strings_sorted(out@),
    ensures
        j <= out.len(),
        forall|k: int| 0 <= k < j ==> lex_le(#[trigger] out@[k]@, x@),
        j < out.len() ==> !lex_le(out@[j as int]@, x@),
{
    let mut j: usize = 0;
    while j < out.len()
        invariant
            j <= out.len(),
            forall|k: int| 0 <= k < j ==> lex_le(#[trigger] out@[k]@, x@),
        decreases out.len() - j,
    {
        if !str_le(&out[j], x) {
            return j;
        }
        j = j + 1;
    }
    j
}

/// Insert a string into a sorted vector, keeping it sorted; the contents
/// afterward are the old contents plus the new entry.
#[verifier::rlimit(30)]
fn insert_sorted(out: &mut Vec<String>, x: String)
    requires
        strings_sorted(old(out)@),
    ensures
        strings_sorted(final(out)@),
        final(out)@.to_multiset() == old(out)@.to_multiset().insert(x),
        final(out).len() == old(out).len() + 1,
{
    let j = lower_pos(out, &x);
    proof {
        let s = out@;
        let n = s.len() as int;
        let jj = j as int;
        if jj < n {
            lemma_lex_le_total(s[jj]@, x@);
        }
        s.insert_ensures(jj, x);
        let t = s.insert(jj, x);
        assert forall|i1: int, i2: int| 0 <= i1 < i2 < t.len() implies #[trigger] lex_le(
            t[i1]@,
            t[i2]@,
        ) by {
            if i2 < jj {
                assert(t[i1] == s[i1] && t[i2] == s[i2]);
            } else if i1 < jj && i2 == jj {
                assert(t[i1] == s[i1] && t[i2] == x);
            } else if i1 < jj && i2 > jj {
                assert(t[i1] == s[i1] && t[i2] == s[i2 - 1]);
            } else if i1 == jj {
                assert(t[i1] == x && t[i2] == s[i2 - 1]);
                assert(lex_le(x@, s[jj]@));
                if i2 - 1 > jj {
                    assert(lex_le(s[jj]@, s[i2 - 1]@));
                    lemma_lex_le_trans(x@, s[jj]@, s[i2 - 1]@);
                }
            } else {
                assert(t[i1] == s[i1 - 1] && t[i2] == s[i2 - 1]);
            }
        }
        let pre = s.subrange(0, jj);
        let suf = s.subrange(jj, n);
        assert(s =~= pre + suf);
        vstd::seq_lib::lemma_multiset_commutative(pre, suf);
        vstd::seq_lib::lemma_multiset_commutative(pre.push(x), suf);
        pre.to_multiset_ensures();
        assert(pre.push(x).to_multiset() =~= pre.to_multiset().insert(x));
        assert(t.to_multiset() =~= s.to_multiset().insert(x));
    }
    out.insert(j, x);
}

/// A character sequence ends with the given suffix.
pub open spec fn seq_ends_with(s: Seq<char>, suffix: Seq<char>) -> bool {
    s.len() >= suffix.len() && s.subrange(s.len() - suffix.len(), s.len() as int) == suffix
}

/// A name the playlist keeps: one of the playable extensions.
pub open spec fn is_audio_name(s: Seq<char>) -> bool {
    ||| seq_ends_with(s, ".mp3"@)
    ||| seq_ends_with(s, ".wav"@)
    ||| seq_ends_with(s, ".flac"@)
}

/// The playlist's selection rule as a predicate value.
pub open spec fn audio_pred() -> spec_fn(String) -> bool {
    |s: String| is_audio_name(s@)
}

/// Whether the string ends with the given suffix, by characters.
fn str_ends_with(s: &String, suffix: &str) -> (r: bool)
    ensures
        r == seq_ends_with(s@, suffix@),
{
    let n = s.as_str().unicode_len();
    let m = suffix.unicode_len();
    if m > n {
        return false;
    }
    let mut i: usize = 0;
    while i < m
        invariant
            i <= m,
            m <= n,
            n == s@.len(),
            m == suffix@.len(),
            forall|k: int| 0 <= k < i ==> s@[n - m + k] == suffix@[k],
        decreases m - i,
    {
        let a = s.as_str().get_char(n - m + i);
        let b = suffix.get_char(i);
        if a != b {
            proof {
                if seq_ends_with(s@, suffix@) {
                    assert(s@.subrange(n - m, n as int)[i as int] == suffix@[i as int]);
                }
            }
            return false;
        }
        i = i + 1;
    }
    proof {
        assert(s@.subrange(n - m, n as int) =~= suffix@);
    }
    true
}

/// A singleton's filtering: kept whole or dropped whole.
proof fn lemma_filter_singleton(x: String)
    ensures
        audio_pred()(x) ==> seq![x].filter(audio_pred()) =~= seq![x],
        !audio_pred()(x) ==> seq![x].filter(audio_pred()) =~= Seq::<String>::empty(),
{
    reveal_with_fuel(Seq::filter, 3);
    assert(seq![x].drop_last() =~= Seq::<String>::empty());
    assert(seq![x].last() == x);
}

/// The playlist: playable files of the working directory, one selectable
/// row per file.
pub struct Playlist {
    pub x: usize,
    pub y: usize,
    pub w: usize,
    pub h: usize,
    pub files: Vec<String>,
    pub selected: Option<usize>,
    pub scroll_offset: usize,
}

impl Playlist {
    /// Geometry in bounds, a selection that points at a file, and sizes the
    /// row arithmetic cannot overflow on.
    pub open spec fn wf(self) -> bool {
        &&& self.x + self.w <= COORD_MAX
        &&& self.y + self.h <= COORD_MAX
        &&& 1 <= self.w
        &&& 1 <= self.h
        &&& self.files.len() <= 0x1000_0000
        &&& self.scroll_offset <= self.files.len()
        &&& match self.selected {
            Some(i) => i < self.files.len(),
            None => true,
        }
    }

    /// Build the playlist from the names the directory listing produced:
    /// keep exactly the playable ones, sorted into code-point order, with
    /// nothing selected.
    pub fn new(x: usize, y: usize, w: usize, h: usize, candidates: Vec<String>) -> (p: Self)
        requires
            x + w <= COORD_MAX,
            y + h <= COORD_MAX,
            1 <= w,
            1 <= h,
            candidates.len() <= 0x1000_0000,
        ensures
            p.wf(),
            p.x == x && p.y == y && p.w == w && p.h == h,
            strings_sorted(p.files@),
            p.files@.to_multiset() == candidates@.filter(audio_pred()).to_multiset(),
            p.selected is None,
            p.scroll_offset == 0,
    {
        let ghost orig = candidates@;
        let mut v = candidates;
        let mut files: Vec<String> = Vec::new();
        proof {
            assert(orig.skip(orig.len() as int) =~= Seq::<String>::empty());
            assert(Seq::<String>::empty().filter(audio_pred()) =~= Seq::<String>::empty()) by {
                reveal(Seq::filter);
            }
            files@.to_multiset_ensures();
            Seq::<String>::empty().to_multiset_ensures();
            assert(files@.to_multiset() =~= orig.skip(orig.len() as int).filter(
                audio_pred(),
            ).to_multiset());
        }
        while v.len() > 0
            invariant
                v@ == orig.subrange(0, v.len() as int),
                v.len() <= orig.len() <= 0x1000_0000,
                strings_sorted(files@),
                files.len() + v.len() <= orig.len(),
                files@.to_multiset() == orig.skip(v.len() as int).filter(
                    audio_pred(),
                ).to_multiset(),
            decreases v.len(),
        {
            let s = v.pop().unwrap();
            let keep = str_ends_with(&s, ".mp3") || str_ends_with(&s, ".wav") || str_ends_with(
                &s,
                ".flac",
            );
            proof {
                let k = v@.len() as int;
                assert(s == orig[k]);
                assert(orig.skip(k) =~= seq![s] + orig.skip(k + 1));
                Seq::filter_distributes_over_add(seq![s], orig.skip(k + 1), audio_pred());
                lemma_filter_singleton(s);
                vstd::seq_lib::lemma_multiset_commutative(
                    seq![s].filter(audio_pred()),
                    orig.skip(k + 1).filter(audio_pred()),
                );
                Seq::<String>::empty().to_multiset_ensures();
                Seq::<String>::empty().push(s).to_multiset_ensures();
                assert(seq![s] =~= Seq::<String>::empty().push(s));
                assert(keep == audio_pred()(s));
                if keep {
                    assert(seq![s].filter(audio_pred()).to_multiset() =~= vstd::multiset::Multiset::<
                        String,
                    >::empty().insert(s));
                    assert(orig.skip(k).filter(audio_pred()).to_multiset() =~= orig.skip(
                        k + 1,
                    ).filter(audio_pred()).to_multiset().insert(s));
                } else {
                    assert(seq![s].filter(audio_pred()).to_multiset() =~= vstd::multiset::Multiset::<
                        String,
                    >::empty());
                    assert(orig.skip(k).filter(audio_pred()).to_multiset() =~= orig.skip(
                        k + 1,
                    ).filter(audio_pred()).to_multiset());
                }
                Seq::lemma_filter_len(orig.skip(k), audio_pred());
                orig.skip(k).filter(audio_pred()).to_multiset_ensures();
                orig.skip(k + 1).filter(audio_pred()).to_multiset_ensures();
            }
            if keep {
                insert_sorted(&mut files, s);
            }
            proof {
                assert(v@ =~= orig.subrange(0, v.len() as int));
            }
        }
        proof {
            assert(orig.skip(0) =~= orig);
        }
        Playlist { x, y, w, h, files, selected: None, scroll_offset: 0 }
    }

    /// The path of the selected entry, if any.
    pub fn get_selected_file(&self) -> (r: Option<String>)
        requires
            self.wf(),
        ensures
            match self.selected {
                Some(i) => r matches Some(p) && p@ == self.files@[i as int]@,
                None => r is None,
            },
    {
        match self.selected {
            Some(idx) => Some(self.files[idx].as_str().to_owned()),
            None => None,
        }
    }
}

/// A color the playlist paints: background, selected row, plain row, or
/// the debug outline.
pub open spec fn playlist_palette(c: u32) -> bool {
    c == 0x101010u32 || c == 0x00FF00u32 || c == 0xAAAAAAu32 || c == 0xFF00FFu32
}

impl Widget for Playlist {
    open spec fn widget_wf(&self) -> bool {
        self.wf()
    }

    /// Paint the background, one row of text per visible file (the selected
    /// row green, the rest grey), and in debug mode an outline. Every pixel
    /// keeps its value or takes a playlist color.
    fn draw(&self, buffer: &mut Vec<u32>, width: usize, _height: usize, debug: bool)
        ensures
            final(buffer).len() == old(buffer).len(),
            forall|i: int|
                0 <= i < final(buffer).len() ==> final(buffer)@[i] == old(buffer)@[i]
                    || playlist_palette(#[trigger] final(buffer)@[i]),
    {
        let bg: u32 = 0x101010;
        let mut i: usize = 0;
        while i < self.h
            invariant
                bg == 0x101010u32,
                self.wf(),
                width <= COORD_MAX,
                buffer.len() == old(buffer).len(),
                forall|i2a: int|
                    0 <= i2a < buffer.len() ==> buffer@[i2a] == old(buffer)@[i2a]
                        || playlist_palette(#[trigger] buffer@[i2a]),
            decreases self.h - i,
        {
            let mut jj: usize = 0;
            while jj < self.w
                invariant
                    bg == 0x101010u32,
                    self.wf(),
                    i < self.h,
                    width <= COORD_MAX,
                    buffer.len() == old(buffer).len(),
                    forall|i2a: int|
                        0 <= i2a < buffer.len() ==> buffer@[i2a] == old(buffer)@[i2a]
                            || playlist_palette(#[trigger] buffer@[i2a]),
                decreases self.w - jj,
            {
                let idx = pixel_index(self.y + i, self.x + jj, width);
                if idx < buffer.len() {
                    buffer.set(idx, bg);
                }
                jj = jj + 1;
            }
            i = i + 1;
        }
        let item_height: usize = 20;
        let max_items = self.h / item_height;
        let max_chars = self.w / 8;
        let mut k: usize = 0;
        while k < max_items
            invariant
                self.wf(),
                width <= COORD_MAX,
                max_items == self.h / 20,
                max_chars == self.w / 8,
                buffer.len() == old(buffer).len(),
                forall|i2a: int|
                    0 <= i2a < buffer.len() ==> buffer@[i2a] == old(buffer)@[i2a]
                        || playlist_palette(#[trigger] buffer@[i2a]),
            decreases max_items - k,
        {
            let idx = self.scroll_offset + k;
            if idx >= self.files.len() {
                break ;
            }
            let item_y = self.y + k * 20;
            let color: u32 = match self.selected {
                Some(s) => if s == idx {
                    0x00FF00
                } else {
                    0xAAAAAA
                },
                None => 0xAAAAAA,
            };
            proof {
                vstd::arithmetic::div_mod::lemma_fundamental_div_mod(self.h as int, 20);
                vstd::arithmetic::div_mod::lemma_mod_division_less_than_divisor(self.h as int, 20);
                assert(k * 20 + 20 <= self.h);
                vstd::arithmetic::div_mod::lemma_div_is_ordered(self.w as int, 0x8000, 8);
                vstd::arithmetic::div_mod::lemma_div_multiples_vanish(0x1000, 8);
            }
            let f = &self.files[idx];
            let flen = f.as_str().unicode_len();
            if flen > max_chars {
                let shown = f.as_str().substring_char(0, max_chars);
                draw_text(buffer, width, self.x + 5, item_y + 6, shown, color);
            } else {
                draw_text(buffer, width, self.x + 5, item_y + 6, f.as_str(), color);
            }
            k = k + 1;
        }
        if debug {
            let oc: u32 = 0xFF00FF;
            let mut i2: usize = 0;
            while i2 < self.w
                invariant
                    oc == 0xFF00FFu32,
                    self.wf(),
                    width <= COORD_MAX,
                    buffer.len() == old(buffer).len(),
                    forall|i2a: int|
                        0 <= i2a < buffer.len() ==> buffer@[i2a] == old(buffer)@[i2a]
                            || playlist_palette(#[trigger] buffer@[i2a]),
                decreases self.w - i2,
            {
                let top = pixel_index(self.y, self.x + i2, width);
                let bottom = pixel_index(self.y + self.h - 1, self.x + i2, width);
                if top < buffer.len() {
                    buffer.set(top, oc);
                }
                if bottom < buffer.len() {
                    buffer.set(bottom, oc);
                }
                i2 = i2 + 1;
            }
            let mut j2: usize = 0;
            while j2 < self.h
                invariant
                    oc == 0xFF00FFu32,
                    self.wf(),
                    width <= COORD_MAX,
                    buffer.len() == old(buffer).len(),
                    forall|i2a: int|
                        0 <= i2a < buffer.len() ==> buffer@[i2a] == old(buffer)@[i2a]
                            || playlist_palette(#[trigger] buffer@[i2a]),
                decreases self.h - j2,
            {
                let left = pixel_index(self.y + j2, self.x, width);
                let right = pixel_index(self.y + j2, self.x + self.w - 1, width);
                if left < buffer.len() {
                    buffer.set(left, oc);
                }
                if right < buffer.len() {
                    buffer.set(right, oc);
                }
                j2 = j2 + 1;
            }
        }
    }

    fn is_hovered(&self, x: usize, y: usize) -> (r: bool)
        ensures
            r == rect_contains(
                self.x as int,
                self.y as int,
                self.w as int,
                self.h as int,
                x as int,
                y as int,
            ),
    {
        x >= self.x && x < self.x + self.w && y >= self.y && y < self.y + self.h
    }

    /// A press inside the list selects the row under the mouse, when that
    /// row holds a file and was not already selected; the result reports a
    /// changed selection.
    fn handle_mouse(&mut self, x: usize, y: usize, down: bool) -> (changed: bool)
        ensures
            final(self).x == old(self).x && final(self).y == old(self).y,
            final(self).w == old(self).w && final(self).h == old(self).h,
            final(self).files == old(self).files,
            final(self).scroll_offset == old(self).scroll_offset,
            ({
                let hovered = rect_contains(
                    old(self).x as int,
                    old(self).y as int,
                    old(self).w as int,
                    old(self).h as int,
                    x as int,
                    y as int,
                );
                let idx = old(self).scroll_offset as int + (y - old(self).y) / 20;
                if down && hovered && idx < old(self).files.len() && old(self).selected != Some(
                    idx as usize,
                ) {
                    &&& changed
                    &&& final(self).selected == Some(idx as usize)
                } else {
                    &&& !changed
                    &&& final(self).selected == old(self).selected
                }
            }),
    {
        let hovered = x >= self.x && x < self.x + self.w && y >= self.y && y < self.y + self.h;
        if down && hovered {
            let rel_y = y - self.y;
            let item_idx = rel_y / 20;
            let actual_idx = item_idx + self.scroll_offset;
            if actual_idx < self.files.len() {
                let already = match self.selected {
                    Some(s) => s == actual_idx,
                    None => false,
                };
                if !already {
                    self.selected = Some(actual_idx);
                    return true;
                }
            }
        }
        false
    }
}

} // verus!
