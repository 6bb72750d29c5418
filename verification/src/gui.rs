//! The control surface's state and decisions: the visualizer bars, the
//! transport and equalizer widgets, and the translation of mouse input into
//! player commands.
//!
//! The window, the skin image and the file dialog live outside; this module
//! owns what can be decided from plain values: which pixels the widgets
//! paint, how the bars decay, and which command one input frame produces.

use crate::fixed::{div_tz, CLIP, SCALE};
use crate::spectrum::BAR_COUNT;
use crate::widgets::{paints_only, pixel_index, Button, Playlist, Slider, Widget, COORD_MAX};
use vstd::prelude::*;

verus! {

/// The command one frame of user input produces for the player loop.
pub enum GuiEvent {
    Nothing,
    Play,
    Pause,
    Stop,
    /// The load control fired; the file picker runs outside, and hands back
    /// a `LoadFile` if the user chose something.
    OpenFileDialog,
    LoadFile(String),
    /// Output gain as a fixed-point fraction of full volume.
    Volume(i64),
    /// Seek target as a fixed-point fraction of the track.
    Seek(i64),
    /// Bass and treble gains, fixed point, up to twice unity.
    Eq(i64, i64),
}

/// Pack 8-bit color channels into one `0RGB` pixel.
pub fn pack_rgb(r: u8, g: u8, b: u8) -> (p: u32)
    ensures
        p == r as int * 0x10000 + g as int * 0x100 + b as int,
        p < 0x100_0000,
{
    (r as u32) * 0x10000 + (g as u32) * 0x100 + (b as u32)
}

/// All bar magnitudes within the visualizer's range.
pub open spec fn bars_wf(bars: Seq<i64>) -> bool {
    &&& bars.len() == BAR_COUNT
    &&& forall|i: int| 0 <= i < bars.len() ==> 0 <= #[trigger] bars[i] <= CLIP
}

/// Peak-hold decay: a bar jumps at once to a louder magnitude and falls by
/// a tenth per frame otherwise; bars beyond the snapshot keep falling.
pub fn decay_bars(bars: &mut Vec<i64>, spectrum: &Vec<i64>)
    requires
        bars_wf(old(bars)@),
        forall|i: int| 0 <= i < spectrum.len() ==> 0 <= #[trigger] spectrum@[i] <= CLIP,
    ensures
        bars_wf(final(bars)@),
        forall|i: int|
            0 <= i < BAR_COUNT ==> final(bars)@[i] == (if i < spectrum.len()
                && spectrum@[i] > old(bars)@[i] {
                spectrum@[i]
            } else {
                div_tz(old(bars)@[i] * 9, 10) as i64
            }),
{
    let mut i: usize = 0;
    while i < bars.len()
        invariant
            bars.len() == BAR_COUNT,
            i <= BAR_COUNT,
            forall|j: int| 0 <= j < spectrum.len() ==> 0 <= #[trigger] spectrum@[j] <= CLIP,
            forall|j: int| i <= j < BAR_COUNT ==> bars@[j] == old(bars)@[j],
            forall|j: int| 0 <= j < BAR_COUNT ==> 0 <= #[trigger] old(bars)@[j] <= CLIP,
            forall|j: int|
                0 <= j < i ==> bars@[j] == (if j < spectrum.len() && spectrum@[j] > old(
                    bars,
                )@[j] {
                    spectrum@[j]
                } else {
                    div_tz(old(bars)@[j] * 9, 10) as i64
                }),
            forall|j: int| 0 <= j < BAR_COUNT ==> 0 <= #[trigger] bars@[j] <= CLIP,
        decreases BAR_COUNT - i,
    {
        let cur = bars[i];
        let next: i64 = if i < spectrum.len() && spectrum[i] > cur {
            spectrum[i]
        } else {
            proof {
                crate::fixed::lemma_div_tz_bound(cur as int * 9, CLIP as int * 9, 10);
            }
            (cur * 9) / 10
        };
        bars.set(i, next);
        i = i + 1;
    }
}

/// The control surface: visualizer bars and every widget's state.
pub struct GuiState {
    pub bars: Vec<i64>,
    pub play_btn: Button,
    pub pause_btn: Button,
    pub stop_btn: Button,
    pub load_btn: Button,
    pub vol_slider: Slider,
    pub seek_slider: Slider,
    pub bass_slider: Slider,
    pub treble_slider: Slider,
    pub playlist: Playlist,
    pub debug_mode: bool,
}

impl GuiState {
    /// Every widget well-formed and the bars in range.
    pub open spec fn wf(self) -> bool {
        &&& bars_wf(self.bars@)
        &&& self.play_btn.wf()
        &&& self.pause_btn.wf()
        &&& self.stop_btn.wf()
        &&& self.load_btn.wf()
        &&& self.vol_slider.wf()
        &&& self.seek_slider.wf()
        &&& self.bass_slider.wf()
        &&& self.treble_slider.wf()
        &&& self.playlist.wf()
    }

    /// The surface at start: transport buttons and sliders laid out over
    /// the skin, volume at full, seek at the start, both tone sliders
    /// centered (unity gain), the playlist filled from the directory
    /// listing, bars dark.
    pub fn new(playlist_files: Vec<String>) -> (g: Self)
        requires
            playlist_files.len() <= 0x1000_0000,
        ensures
            g.wf(),
            !g.debug_mode,
            g.vol_slider.value == SCALE,
            g.seek_slider.value == 0,
            g.bass_slider.value == SCALE / 2,
            g.treble_slider.value == SCALE / 2,
            forall|i: int| 0 <= i < BAR_COUNT ==> g.bars@[i] == 0,
            g.playlist.selected is None,
    {
        let mut bars: Vec<i64> = Vec::new();
        let mut i: usize = 0;
        while i < BAR_COUNT
            invariant
                i <= BAR_COUNT,
                bars.len() == i,
                forall|j: int| 0 <= j < i ==> bars@[j] == 0,
            decreases BAR_COUNT - i,
        {
            bars.push(0);
            i = i + 1;
        }
        proof {
            reveal_strlit("Play");
            reveal_strlit("Pause");
            reveal_strlit("Stop");
            reveal_strlit("Load");
        }
        GuiState {
            bars,
            play_btn: Button::new(20, 150, 50, 50, "Play"),
            pause_btn: Button::new(80, 150, 50, 50, "Pause"),
            stop_btn: Button::new(140, 150, 50, 50, "Stop"),
            load_btn: Button::new(500, 150, 50, 50, "Load"),
            vol_slider: Slider::new(560, 50, 20, 200, SCALE, true),
            seek_slider: Slider::new(20, 220, 500, 20, 0, false),
            bass_slider: Slider::new(600, 50, 20, 100, SCALE / 2, true),
            treble_slider: Slider::new(630, 50, 20, 100, SCALE / 2, true),
            playlist: Playlist::new(700, 50, 300, 400, playlist_files),
            debug_mode: false,
        }
    }

    /// Fold a fresh spectrum snapshot into the bars.
    pub fn absorb_spectrum(&mut self, spectrum: &Vec<i64>)
        requires
            old(self).wf(),
            forall|i: int| 0 <= i < spectrum.len() ==> 0 <= #[trigger] spectrum@[i] <= CLIP,
        ensures
            final(self).wf(),
            forall|i: int|
                0 <= i < BAR_COUNT ==> final(self).bars@[i] == (if i < spectrum.len()
                    && spectrum@[i] > old(self).bars@[i] {
                    spectrum@[i]
                } else {
                    div_tz(old(self).bars@[i] * 9, 10) as i64
                }),
            final(self).play_btn == old(self).play_btn,
            final(self).playlist == old(self).playlist,
            final(self).vol_slider == old(self).vol_slider,
            final(self).seek_slider == old(self).seek_slider,
            final(self).bass_slider == old(self).bass_slider,
            final(self).treble_slider == old(self).treble_slider,
            final(self).debug_mode == old(self).debug_mode,
    {
        decay_bars(&mut self.bars, spectrum);
    }

    /// Paint the visualizer bars: one column per bar, rising from the
    /// baseline, red in the loud upper half and green below.
    pub fn draw_bars(&self, buffer: &mut Vec<u32>, width: usize)
        requires
            self.wf(),
            width <= COORD_MAX,
        ensures
            paints_only(old(buffer)@, final(buffer)@, 0xFF0000u32, 0x00FF00u32),
    {
        let mut i: usize = 0;
        while i < BAR_COUNT
            invariant
                self.wf(),
                width <= COORD_MAX,
                i <= BAR_COUNT,
                paints_only(old(buffer)@, buffer@, 0xFF0000u32, 0x00FF00u32),
            decreases BAR_COUNT - i,
        {
            let bar_x = 30 + i * 25;
            proof {
                crate::fixed::lemma_div_tz_bound(
                    self.bars@[i as int] as int * 1000,
                    CLIP as int * 1000,
                    SCALE as int,
                );
            }
            let val = (self.bars[i] * 1000) / SCALE;
            let bh: usize = if val > 80 {
                80
            } else {
                val as usize
            };
            let mut y: usize = 120 - bh;
            while y < 120
                invariant
                    self.wf(),
                    width <= COORD_MAX,
                    i < BAR_COUNT,
                    bar_x == 30 + i * 25,
                    y <= 120,
                    paints_only(old(buffer)@, buffer@, 0xFF0000u32, 0x00FF00u32),
                decreases 120 - y,
            {
                let color: u32 = if y < 60 {
                    0xFF0000
                } else {
                    0x00FF00
                };
                let mut x: usize = bar_x;
                while x < bar_x + 20
                    invariant
                        self.wf(),
                        width <= COORD_MAX,
                        i < BAR_COUNT,
                        bar_x == 30 + i * 25,
                        y < 120,
                        color == (if y < 60 {
                            0xFF0000u32
                        } else {
                            0x00FF00u32
                        }),
                        x <= bar_x + 20,
                        paints_only(old(buffer)@, buffer@, 0xFF0000u32, 0x00FF00u32),
                    decreases bar_x + 20 - x,
                {
                    let idx = pixel_index(y, x, width);
                    if idx < buffer.len() {
                        buffer.set(idx, color);
                    }
                    x = x + 1;
                }
                y = y + 1;
            }
            i = i + 1;
        }
    }

    /// Paint every widget over the frame. The buffer keeps its size.
    pub fn draw_widgets(&self, buffer: &mut Vec<u32>, width: usize, height: usize)
        requires
            self.wf(),
            width <= COORD_MAX,
        ensures
            final(buffer).len() == old(buffer).len(),
    {
        self.play_btn.draw(buffer, width, height, self.debug_mode);
        self.pause_btn.draw(buffer, width, height, self.debug_mode);
        self.stop_btn.draw(buffer, width, height, self.debug_mode);
        self.load_btn.draw(buffer, width, height, self.debug_mode);
        self.vol_slider.draw(buffer, width, height, self.debug_mode);
        self.seek_slider.draw(buffer, width, height, self.debug_mode);
        self.bass_slider.draw(buffer, width, height, self.debug_mode);
        self.treble_slider.draw(buffer, width, height, self.debug_mode);
        self.playlist.draw(buffer, width, height, self.debug_mode);
    }

    /// Flip the debug overlay.
    pub fn toggle_debug(&mut self)
        requires
            old(self).wf(),
        ensures
            final(self).wf(),
            final(self).debug_mode == !old(self).debug_mode,
    {
        self.debug_mode = !self.debug_mode;
    }

    /// Decide the command one frame of input produces, feeding the mouse to
    /// every widget in the original priority order. A fired load control
    /// asks for the file dialog; a playlist selection carries the chosen
    /// path. Whenever an event carries a value, the value is exactly the
    /// widget's state after the frame, with the tone gains scaled to twice
    /// the slider fraction.
    pub fn handle_input(&mut self, mx: usize, my: usize, down: bool, open_shortcut: bool) -> (e:
        GuiEvent)
        requires
            old(self).wf(),
        ensures
            final(self).wf(),
            e matches GuiEvent::Volume(v) ==> v == final(self).vol_slider.value && 0 <= v <= SCALE,
            e matches GuiEvent::Seek(f) ==> f == final(self).seek_slider.value && 0 <= f <= SCALE,
            e matches GuiEvent::Eq(b, t) ==> b == 2 * final(self).bass_slider.value && t == 2
                * final(self).treble_slider.value && 0 <= b <= 2 * SCALE && 0 <= t <= 2 * SCALE,
            e matches GuiEvent::LoadFile(p) ==> final(self).playlist.selected matches Some(s)
                && p@ == final(self).playlist.files@[s as int]@,
    {
        let mut e = GuiEvent::Nothing;
        if self.play_btn.handle_mouse(mx, my, down) {
            e = GuiEvent::Play;
        }
        if self.pause_btn.handle_mouse(mx, my, down) {
            e = GuiEvent::Pause;
        }
        if self.stop_btn.handle_mouse(mx, my, down) {
            e = GuiEvent::Stop;
        }
        if self.load_btn.handle_mouse(mx, my, down) {
            e = GuiEvent::OpenFileDialog;
        }
        if self.vol_slider.handle_mouse(mx, my, down) {
            e = GuiEvent::Volume(self.vol_slider.value);
        }
        if self.seek_slider.handle_mouse(mx, my, down) {
            e = GuiEvent::Seek(self.seek_slider.value);
        }
        let bass_moved = self.bass_slider.handle_mouse(mx, my, down);
        let treble_moved = self.treble_slider.handle_mouse(mx, my, down);
        if bass_moved || treble_moved {
            e = GuiEvent::Eq(2 * self.bass_slider.value, 2 * self.treble_slider.value);
        }
        if self.playlist.handle_mouse(mx, my, down) {
            if let Some(path) = self.playlist.get_selected_file() {
                e = GuiEvent::LoadFile(path);
            }
        }
        if open_shortcut {
            e = GuiEvent::OpenFileDialog;
        }
        e
    }
}

} // verus!
