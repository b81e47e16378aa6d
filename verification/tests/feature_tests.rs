use hier::capture::{render_capture, render_plain_capture, template_for_title, template_of, CaptureTemplate};
use hier::control::{decode_key_payload, encode_frame, encode_key_payload, next_frame, payload_len, ControlFrame};
use hier::decor::{color_of_word, color_word_readable, parse_color, BorderColor, HighlightColor};
use hier::keys::{
    bind_line, config_action, config_is_readable, key_decision, key_of_name, line_is_readable, load_binds, ActionName,
    BindTable, Key, KeyCombo, KeyDecision, Modifiers,
};
use hier::layout::{LayoutEngine, TilingMode, WindowId};
use hier::nesting::{
    child_control_sockets, control_socket_path, decimal_string, is_nested_compositor, listed_title, names_compositor,
    next_display, text_lines,
};
use hier::text::{parse_number, trim_chars};

fn chars(s: &str) -> Vec<char> {
    s.chars().collect()
}

fn text(c: &[char]) -> String {
    c.iter().collect()
}

// --- control socket framing ---

#[test]
fn frames_text_lines_and_binary_messages() {
    assert_eq!(next_frame(b""), ControlFrame::Incomplete);
    assert_eq!(next_frame(b"get_layout"), ControlFrame::Incomplete);
    assert_eq!(next_frame(b"get_layout\nrest"), ControlFrame::Line { end: 11 });
    assert_eq!(next_frame(b"HIE"), ControlFrame::Incomplete);
    assert_eq!(next_frame(b"HIEX\n"), ControlFrame::Line { end: 5 });
}

#[test]
fn frames_binary_messages() {
    let key = encode_frame(1, &encode_key_payload(30, true));
    assert_eq!(key, vec![72, 73, 69, 82, 1, 30, 0, 0, 0, 1]);
    assert_eq!(next_frame(&key), ControlFrame::Binary { msg_type: 1, end: 10 });
    assert_eq!(next_frame(&key[..7]), ControlFrame::Incomplete);
    assert_eq!(next_frame(&key[..4]), ControlFrame::Incomplete);
    assert_eq!(next_frame(&[72, 73, 69, 82, 9, 0]), ControlFrame::UnknownBinary);
    assert_eq!(next_frame(&[72, 73, 69, 82, 8]), ControlFrame::Binary { msg_type: 8, end: 5 });
}

#[test]
fn payload_lengths() {
    assert_eq!(payload_len(1), Some(5));
    assert_eq!(payload_len(4), Some(5));
    assert_eq!(payload_len(2), Some(16));
    assert_eq!(payload_len(7), Some(16));
    assert_eq!(payload_len(6), Some(8));
    assert_eq!(payload_len(8), Some(0));
    assert_eq!(payload_len(0), None);
    assert_eq!(payload_len(9), None);
}

#[test]
fn key_payload_round_trip() {
    let p = encode_key_payload(0x0102_0304, false);
    assert_eq!(p, vec![4, 3, 2, 1, 0]);
    assert_eq!(decode_key_payload(&p), Some((0x0102_0304, false)));
    assert_eq!(decode_key_payload(&encode_key_payload(u32::MAX, true)), Some((u32::MAX, true)));
    assert_eq!(decode_key_payload(&[1, 0, 0, 0, 7]), Some((1, false)));
    assert_eq!(decode_key_payload(&[1, 0, 0, 0]), None);
}

// --- key bindings ---

#[test]
fn key_names_and_config_actions() {
    assert_eq!(key_of_name(&chars("left")), Some(Key::Left));
    assert_eq!(key_of_name(&chars("page_down")), Some(Key::PageDown));
    assert_eq!(key_of_name(&chars("3")), Some(Key::Digit3));
    assert_eq!(key_of_name(&chars("Left")), None);
    assert_eq!(config_action(&chars("focus-column-left")), Some(ActionName::FocusLeft));
    assert_eq!(config_action(&chars("spawn")), Some(ActionName::SpawnTerminal));
    assert_eq!(config_action(&chars("maximize-column")), None);
    assert_eq!(ActionName::Workspace(4).name(), "workspace-4");
    assert_eq!(ActionName::MoveColumnToWorkspaceUp.name(), "move-column-to-workspace-up");
}

#[test]
fn binding_lines() {
    let b = bind_line(&chars("Mod+Shift+H { move-column-left; }"));
    let combo = |alt: bool, logo: bool| KeyCombo { ctrl: false, shift: true, alt, logo, key: Key::H };
    assert_eq!(b, vec![(combo(true, false), ActionName::MoveLeft), (combo(false, true), ActionName::MoveLeft)]);
    let s = bind_line(&chars("Super+Return { spawn \"foot\"; }"));
    assert_eq!(
        s,
        vec![(KeyCombo { ctrl: false, shift: false, alt: false, logo: true, key: Key::Return }, ActionName::SpawnTerminal)]
    );
    assert!(bind_line(&chars("Mod+F1 { close-window; }")).is_empty());
    assert!(bind_line(&chars("Mod+Q close-window;")).is_empty());
    assert!(bind_line(&chars("Mod+Q { unknown; }")).is_empty());
}

#[test]
fn loading_bindings_last_one_wins() {
    let lines: Vec<String> = vec![
        "// comment".to_string(),
        "Mod+Q { close-window; }".to_string(),
        "binds {".to_string(),
        "    Alt+Q { close-window; }".to_string(),
        "    Alt+Q { toggle-overview; }".to_string(),
        "}".to_string(),
        "Alt+W { spawn; }".to_string(),
    ];
    let table = load_binds(&lines);
    let alt_q = KeyCombo { ctrl: false, shift: false, alt: true, logo: false, key: Key::Q };
    let alt_w = KeyCombo { ctrl: false, shift: false, alt: true, logo: false, key: Key::W };
    assert_eq!(table.get(alt_q), Some(ActionName::TilingModeOverview));
    assert_eq!(table.get(alt_w), None);
}

#[test]
fn readable_configurations() {
    assert!(line_is_readable(&chars("Mod+Q { close-window; }")));
    assert!(line_is_readable(&chars("no braces")));
    assert!(!line_is_readable(&chars("} Mod+Q {")));
    let ok: Vec<String> = vec!["} outside {".to_string(), "binds {".to_string(), "Mod+Q { quit; }".to_string(), "}".to_string()];
    assert!(config_is_readable(&ok));
    let bad: Vec<String> = vec!["binds {".to_string(), "  } Mod+Q { quit;".to_string()];
    assert!(!config_is_readable(&bad));
}

#[test]
fn key_decisions() {
    let mut binds = BindTable::new();
    let ctrl_a = KeyCombo { ctrl: true, shift: false, alt: false, logo: false, key: Key::A };
    binds.insert(ctrl_a, ActionName::Quit);
    let none = Modifiers { ctrl: false, shift: false, alt: false, logo: false };
    let ctrl = Modifiers { ctrl: true, ..none };
    let logo = Modifiers { logo: true, ..none };
    let logo_shift = Modifiers { logo: true, shift: true, ..none };
    assert_eq!(key_decision(true, ctrl, Some(Key::A), &binds, false), KeyDecision::Perform(ActionName::Quit));
    assert_eq!(key_decision(true, none, Some(Key::A), &binds, false), KeyDecision::Forward);
    assert_eq!(key_decision(true, logo, Some(Key::H), &binds, false), KeyDecision::Perform(ActionName::FocusLeft));
    assert_eq!(key_decision(true, logo_shift, Some(Key::H), &binds, false), KeyDecision::Perform(ActionName::MoveLeft));
    assert_eq!(key_decision(true, logo, Some(Key::Digit2), &binds, false), KeyDecision::Perform(ActionName::Workspace(2)));
    assert_eq!(key_decision(true, logo, Some(Key::Z), &binds, false), KeyDecision::DepthSwitch { forward: true });
    assert_eq!(key_decision(true, logo_shift, Some(Key::UpperZ), &binds, false), KeyDecision::DepthSwitch { forward: false });
    assert_eq!(key_decision(true, logo_shift, Some(Key::UpperQ), &binds, false), KeyDecision::Perform(ActionName::Quit));
    assert_eq!(key_decision(true, logo, None, &binds, false), KeyDecision::Forward);
    assert_eq!(key_decision(false, none, Some(Key::Z), &binds, true), KeyDecision::EndDepthSwitch);
    assert_eq!(key_decision(false, logo, Some(Key::Z), &binds, true), KeyDecision::Forward);
    assert_eq!(key_decision(false, none, Some(Key::Z), &binds, false), KeyDecision::Forward);
}

// --- window captures ---

#[test]
fn capture_templates_go_by_title_case_aside() {
    assert_eq!(template_of(&chars("my terminal")), CaptureTemplate::Terminal);
    assert_eq!(template_of(&chars("firefox")), CaptureTemplate::Browser);
    assert_eq!(template_of(&chars("notes")), CaptureTemplate::General);
    assert_eq!(template_for_title("Alacritty"), CaptureTemplate::Terminal);
    assert_eq!(template_for_title("Mozilla FIREFOX"), CaptureTemplate::Browser);
    assert_eq!(template_for_title("Ghostty Chrome"), CaptureTemplate::Terminal);
    assert_eq!(template_for_title("Editor"), CaptureTemplate::General);
}

#[test]
fn capture_border_and_fill() {
    let (rgb, rgba) = render_capture(CaptureTemplate::General, 20, 10);
    assert_eq!(rgb.len(), 20 * 10 * 3);
    assert_eq!(rgba.len(), 20 * 10 * 4);
    assert_eq!(&rgb[0..3], &[30, 144, 255]);
    assert_eq!(&rgba[0..4], &[30, 144, 255, 255]);
    let inner = 5 * 20 + 10;
    assert_eq!(rgba[4 * inner + 3], 255);
    assert_ne!(&rgba[4 * inner..4 * inner + 3], &[30, 144, 255]);
    let plain = render_plain_capture(10, 10);
    assert_eq!(plain.len(), 400);
    assert_eq!(&plain[0..4], &[30, 144, 255, 255]);
    let centre = 4 * (5 * 10 + 5);
    assert_eq!(&plain[centre..centre + 4], &[30, 30, 30, 255]);
}

// --- nesting ---

#[test]
fn nested_compositors_are_recognised_case_aside() {
    assert!(names_compositor(&chars("hier")));
    assert!(!names_compositor(&chars("foot")));
    assert!(is_nested_compositor(Some("Hier (nested)"), None));
    assert!(is_nested_compositor(Some("foot"), Some("SMITHAY")));
    assert!(!is_nested_compositor(Some("foot"), Some("org.foot")));
    assert!(!is_nested_compositor(None, None));
}

#[test]
fn next_display_numbers() {
    assert_eq!(next_display("wayland-1"), Some(2));
    assert_eq!(next_display("wayland-41"), Some(42));
    assert_eq!(next_display("wayland-x"), None);
    assert_eq!(next_display("display-1"), None);
}

#[test]
fn control_sockets_of_nested_displays() {
    assert_eq!(decimal_string(0), "0");
    assert_eq!(decimal_string(7), "7");
    assert_eq!(decimal_string(1203), "1203");
    assert_eq!(decimal_string(u32::MAX), "4294967295");
    assert_eq!(control_socket_path("wayland-1"), "/tmp/hier-ctrl-wayland-1.sock");
    assert_eq!(
        child_control_sockets(Some("wayland-7"), "wayland-1"),
        vec!["/tmp/hier-ctrl-wayland-7.sock".to_string(), "/tmp/hier-ctrl-wayland-2.sock".to_string()]
    );
    assert_eq!(child_control_sockets(None, "wayland-9"), vec!["/tmp/hier-ctrl-wayland-10.sock".to_string()]);
    assert!(child_control_sockets(None, "sandbox").is_empty());
    assert_eq!(child_control_sockets(Some("x"), "sandbox"), vec!["/tmp/hier-ctrl-x.sock".to_string()]);
}

#[test]
fn listing_titles() {
    let listing = "0:0:7:0:0:Terminal\r\n0:1:9:0:0:Browser: Docs\nbad line\n";
    assert_eq!(listed_title(listing, 7).map(|t| text(&t)), Some("Terminal".to_string()));
    assert_eq!(listed_title(listing, 9).map(|t| text(&t)), Some("Browser".to_string()));
    assert_eq!(listed_title(listing, 3), None);
    let lines = text_lines(&chars("a\r\nb\n\nc"));
    let got: Vec<String> = lines.iter().map(|l| text(l)).collect();
    assert_eq!(got, vec!["a", "b", "", "c"]);
}

// --- decoration ---

#[test]
fn highlight_colours() {
    assert_eq!(parse_color(&chars("green")), HighlightColor::Green);
    assert_eq!(parse_color(&chars("#ff8000")), HighlightColor::Rgb(255, 128, 0));
    assert_eq!(parse_color(&chars("#zz0010")), HighlightColor::Rgb(255, 0, 16));
    assert_eq!(parse_color(&chars("purple")), HighlightColor::Red);
    assert_eq!(color_of_word(&chars("CYAN")), Some(HighlightColor::Cyan));
    assert_eq!(color_of_word(&chars("#FF0000")), Some(HighlightColor::Rgb(255, 0, 0)));
    // Six bytes in three two-byte characters: no pair is a number.
    assert_eq!(color_of_word(&chars("#ééé")), Some(HighlightColor::Rgb(255, 255, 255)));
    assert_eq!(color_of_word(&chars("#+f+fé")), Some(HighlightColor::Rgb(15, 15, 255)));
    // Seven characters but more than seven bytes: not a colour code.
    assert_eq!(color_of_word(&chars("#ff00é0")), Some(HighlightColor::Red));
    // A pair would split a character.
    assert_eq!(color_of_word(&chars("#aébbc")), None);
    assert!(color_word_readable(&chars("#123456")));
    assert!(!color_word_readable(&chars("#aébbc")));
}

#[test]
fn borders_and_tab_indicators() {
    let mut engine: LayoutEngine<f32> = LayoutEngine::new(2);
    engine.spawn_window(WindowId(1), "a".to_string(), 400.0);
    engine.spawn_window(WindowId(2), "b".to_string(), 400.0);
    engine.focus_left();
    engine.toggle_tab_group();
    engine.spawn_window(WindowId(3), "c".to_string(), 400.0);
    // Column 0 holds tabs 1 and 2 (2 focused); column 1 holds window 3, focused.
    assert_eq!(engine.border(0, 1, 0, false, None), Some(BorderColor::Focused));
    assert_eq!(engine.border(0, 0, 1, false, None), Some(BorderColor::Inactive));
    assert_eq!(engine.border(0, 0, 0, false, None), None);
    assert_eq!(engine.border(0, 0, 0, true, None), Some(BorderColor::Inactive));
    assert_eq!(engine.border(0, 1, 0, false, Some(WindowId(3))), Some(BorderColor::Highlight));
    assert!(engine.tab_indicators(0, 0, 1));
    assert!(!engine.tab_indicators(0, 0, 0));
    assert!(!engine.tab_indicators(0, 1, 0));
    engine.tiling_mode = TilingMode::Depth;
    assert!(!engine.tab_indicators(0, 0, 1));
    assert_eq!(engine.border(0, 0, 0, false, None), Some(BorderColor::Inactive));
}

// --- text ---

#[test]
fn numbers_and_trimming() {
    assert_eq!(parse_number(&chars("42"), 100), Some(42));
    assert_eq!(parse_number(&chars("+7"), 100), Some(7));
    assert_eq!(parse_number(&chars("101"), 100), None);
    assert_eq!(parse_number(&chars(""), 100), None);
    assert_eq!(parse_number(&chars("+"), 100), None);
    assert_eq!(parse_number(&chars("4 2"), 100), None);
    assert_eq!(text(&trim_chars(&chars("  x y \t"))), "x y");
    assert_eq!(template_for_title("GHOSTTY"), CaptureTemplate::Terminal);
    assert_eq!(template_for_title("ÀLACRITTY"), CaptureTemplate::General);
}

#[test]
fn bind_table_keeps_combinations_apart() {
    let mut table = BindTable::new();
    let a = KeyCombo { ctrl: false, shift: false, alt: true, logo: false, key: Key::A };
    let a_logo = KeyCombo { logo: true, ..a };
    let b = KeyCombo { key: Key::B, ..a };
    let digit9 = KeyCombo { ctrl: true, shift: true, alt: true, logo: true, key: Key::Digit9 };
    table.insert(a, ActionName::FocusLeft);
    table.insert(a_logo, ActionName::FocusRight);
    table.insert(digit9, ActionName::Quit);
    assert_eq!(table.get(a), Some(ActionName::FocusLeft));
    assert_eq!(table.get(a_logo), Some(ActionName::FocusRight));
    assert_eq!(table.get(b), None);
    assert_eq!(table.get(digit9), Some(ActionName::Quit));
    table.insert(a, ActionName::CloseWindow);
    assert_eq!(table.get(a), Some(ActionName::CloseWindow));
    assert_eq!(table.get(a_logo), Some(ActionName::FocusRight));
}
