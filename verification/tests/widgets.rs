use reamp::fixed::SCALE;
use reamp::gui::{decay_bars, pack_rgb, GuiEvent, GuiState};
use reamp::spectrum::BAR_COUNT;
use reamp::widgets::{draw_text, Button, Playlist, Slider, Widget};

/// A click fires on release over the button, not on press.
#[test]
fn button_clicks_on_release() {
    let mut b = Button::new(10, 10, 40, 20, "Play");
    assert!(!b.handle_mouse(15, 15, true));
    assert!(b.pressed);
    assert!(b.handle_mouse(15, 15, false));
    assert!(!b.pressed);
}

/// Pressing elsewhere, or releasing off the button, never clicks.
#[test]
fn button_ignores_misses() {
    let mut b = Button::new(10, 10, 40, 20, "Stop");
    assert!(!b.handle_mouse(5, 5, true));
    assert!(!b.pressed);
    assert!(!b.handle_mouse(15, 15, true));
    assert!(b.pressed);
    assert!(!b.handle_mouse(200, 200, false));
    assert!(!b.pressed);
}

/// Hover is exactly the rectangle.
#[test]
fn hover_is_the_rectangle() {
    let b = Button::new(10, 10, 40, 20, "X");
    assert!(b.is_hovered(10, 10));
    assert!(b.is_hovered(49, 29));
    assert!(!b.is_hovered(50, 15));
    assert!(!b.is_hovered(15, 30));
    assert!(!b.is_hovered(9, 15));
}

/// Dragging a horizontal slider sets the exact track fraction.
#[test]
fn horizontal_slider_sets_exact_fraction() {
    let mut s = Slider::new(100, 10, 200, 20, 0, false);
    assert!(s.handle_mouse(150, 15, true));
    assert!(s.dragging);
    assert_eq!(s.value, (50 * SCALE) / 200);
    assert!(s.handle_mouse(300, 15, true));
    assert_eq!(s.value, SCALE);
    assert!(s.handle_mouse(5, 15, true));
    assert_eq!(s.value, 0);
    assert!(!s.handle_mouse(150, 15, false));
    assert!(!s.dragging);
    assert_eq!(s.value, 0);
}

/// A vertical slider reads bottom-up.
#[test]
fn vertical_slider_reads_bottom_up() {
    let mut s = Slider::new(10, 100, 20, 200, 0, true);
    assert!(s.handle_mouse(15, 250, true));
    assert_eq!(s.value, SCALE / 4);
    assert!(s.handle_mouse(15, 100, true));
    assert_eq!(s.value, SCALE);
    assert!(s.handle_mouse(15, 200, true));
    assert_eq!(s.value, SCALE / 2);
}

/// The playlist keeps exactly the playable names, sorted.
#[test]
fn playlist_filters_and_sorts() {
    let names = vec![
        String::from("zebra.mp3"),
        String::from("notes.txt"),
        String::from("alpha.wav"),
        String::from("cover.png"),
        String::from("middle.flac"),
    ];
    let p = Playlist::new(0, 0, 300, 400, names);
    let got: Vec<&str> = p.files.iter().map(|s| s.as_str()).collect();
    assert_eq!(got, vec!["alpha.wav", "middle.flac", "zebra.mp3"]);
    assert!(p.selected.is_none());
    assert!(p.get_selected_file().is_none());
}

/// Clicking a row selects that file; the same row again reports no change.
#[test]
fn playlist_click_selects_row() {
    let names = vec![
        String::from("b.mp3"),
        String::from("a.mp3"),
        String::from("c.mp3"),
    ];
    let mut p = Playlist::new(0, 0, 300, 400, names);
    assert!(p.handle_mouse(10, 25, true));
    assert_eq!(p.selected, Some(1));
    assert_eq!(p.get_selected_file().as_deref(), Some("b.mp3"));
    assert!(!p.handle_mouse(10, 25, true));
    assert!(p.handle_mouse(10, 45, true));
    assert_eq!(p.get_selected_file().as_deref(), Some("c.mp3"));
}

/// A click below the last row changes nothing.
#[test]
fn playlist_click_past_end_is_ignored() {
    let names = vec![String::from("only.mp3")];
    let mut p = Playlist::new(0, 0, 300, 400, names);
    assert!(!p.handle_mouse(10, 250, true));
    assert!(p.selected.is_none());
}

/// Text drawing paints glyph pixels: a letter leaves its color, a space
/// leaves the buffer untouched.
#[test]
fn draw_text_paints_glyph_pixels() {
    let mut letter = vec![0u32; 64 * 16];
    draw_text(&mut letter, 64, 0, 0, "A", 0xABCDEF);
    let painted = letter.iter().filter(|&&p| p == 0xABCDEF).count();
    assert!(painted > 0, "a letter must paint pixels");
    assert!(letter.iter().all(|&p| p == 0 || p == 0xABCDEF));

    let mut blank = vec![0u32; 64 * 16];
    draw_text(&mut blank, 64, 0, 0, " ", 0xABCDEF);
    assert!(blank.iter().all(|&p| p == 0), "a space paints nothing");
}

/// Different letters paint different patterns: the glyph lookup really
/// depends on the character.
#[test]
fn draw_text_distinguishes_letters() {
    let mut a = vec![0u32; 64 * 16];
    let mut b = vec![0u32; 64 * 16];
    draw_text(&mut a, 64, 0, 0, "A", 1);
    draw_text(&mut b, 64, 0, 0, "B", 1);
    assert_ne!(a, b);
}

/// Color packing is exact.
#[test]
fn pack_rgb_exact() {
    assert_eq!(pack_rgb(0, 0, 0), 0);
    assert_eq!(pack_rgb(255, 255, 255), 0xFFFFFF);
    assert_eq!(pack_rgb(0x12, 0x34, 0x56), 0x123456);
}

/// Bars jump to louder magnitudes and decay by a tenth otherwise.
#[test]
fn bars_peak_and_decay() {
    let mut bars = vec![0i64; BAR_COUNT];
    bars[0] = 1000;
    bars[1] = 55;
    let spectrum = vec![500i64, 600];
    decay_bars(&mut bars, &spectrum);
    assert_eq!(bars[0], 900);
    assert_eq!(bars[1], 600);
    for i in 2..BAR_COUNT {
        assert_eq!(bars[i], 0);
    }
}

/// The surface starts with flat tone sliders and silence, and a slider
/// drag produces the matching command with the doubled gain scale.
#[test]
fn gui_input_produces_eq_command() {
    let mut g = GuiState::new(Vec::new());
    assert_eq!(g.vol_slider.value, SCALE);
    assert_eq!(g.bass_slider.value, SCALE / 2);
    // Drag the bass slider (at x 600..620, y 50..150) to its midpoint.
    let e = g.handle_input(610, 100, true, false);
    match e {
        GuiEvent::Eq(bass, treble) => {
            assert_eq!(bass, 2 * g.bass_slider.value);
            assert_eq!(treble, 2 * g.treble_slider.value);
            assert_eq!(bass, SCALE);
            assert_eq!(treble, SCALE);
        }
        other => panic!("expected an equalizer command, got {:?}", discriminant_name(&other)),
    }
}

/// The transport buttons fire their commands on release.
#[test]
fn gui_play_button_fires_play() {
    let mut g = GuiState::new(Vec::new());
    let e1 = g.handle_input(30, 160, true, false);
    assert!(matches!(e1, GuiEvent::Nothing));
    let e2 = g.handle_input(30, 160, false, false);
    assert!(matches!(e2, GuiEvent::Play));
}

/// The load shortcut asks for the file dialog.
#[test]
fn gui_shortcut_opens_dialog() {
    let mut g = GuiState::new(Vec::new());
    let e = g.handle_input(0, 0, false, true);
    assert!(matches!(e, GuiEvent::OpenFileDialog));
}

fn discriminant_name(e: &GuiEvent) -> &'static str {
    match e {
        GuiEvent::Nothing => "Nothing",
        GuiEvent::Play => "Play",
        GuiEvent::Pause => "Pause",
        GuiEvent::Stop => "Stop",
        GuiEvent::OpenFileDialog => "OpenFileDialog",
        GuiEvent::LoadFile(_) => "LoadFile",
        GuiEvent::Volume(_) => "Volume",
        GuiEvent::Seek(_) => "Seek",
        GuiEvent::Eq(_, _) => "Eq",
    }
}
