use macro_recorder::events::EventType;
use macro_recorder::keys::{
    is_reserved_key, key_name_to_vk_code, keyboard_event, mouse_event, mouse_message_kind, vk_code_to_string,
    wheel_delta,
};
use macro_recorder::player::MacroPlayer;
use macro_recorder::recorder::{MacroRecorder, RecorderState};

#[test]
fn events_while_paused_are_dropped() {
    let mut r = MacroRecorder::new();
    r.add_event(keyboard_event(0, 0x41, true));
    assert!(r.get_events().is_empty());
    r.start(1_000);
    r.add_event(keyboard_event(10, 0x41, true));
    r.pause(2_000);
    assert_eq!(r.get_state(), RecorderState::Paused);
    r.add_event(keyboard_event(20, 0x42, true));
    r.resume(5_000);
    r.add_event(keyboard_event(30, 0x41, false));
    r.stop(6_000);
    let names: Vec<(EventType, String)> =
        r.get_events().iter().map(|e| (e.event_type, e.data.key_name.clone().unwrap())).collect();
    assert_eq!(names, vec![(EventType::KeyDown, "a".to_string()), (EventType::KeyUp, "a".to_string())]);
}

#[test]
fn duration_excludes_pauses_and_freezes() {
    let mut r = MacroRecorder::new();
    assert_eq!(r.get_duration(99), 0);
    r.start(1_000_000);
    assert_eq!(r.get_duration(1_500_000), 500_000);
    r.pause(2_000_000);
    assert_eq!(r.get_duration(9_000_000), 1_000_000);
    r.resume(4_000_000);
    assert_eq!(r.get_duration(4_250_000), 1_250_000);
    r.stop(5_000_000);
    assert_eq!(r.get_state(), RecorderState::Idle);
    assert_eq!(r.get_duration(70_000_000), 2_000_000);
}

#[test]
fn clear_only_when_idle() {
    let mut r = MacroRecorder::new();
    r.start(0);
    r.add_event(keyboard_event(1, 0x20, true));
    r.clear();
    assert_eq!(r.get_events().len(), 1);
    r.stop(5);
    r.clear();
    assert!(r.get_events().is_empty());
}

#[test]
fn saved_text_loads_back() {
    let mut r = MacroRecorder::new();
    r.start(0);
    r.add_event(keyboard_event(1_234_567, 0x41, true));
    r.add_event(mouse_event(2_000_000, EventType::MouseDown, 100, 200, Some(2), None));
    r.stop(3_000_000);
    let text = r.to_mcr_text();
    assert_eq!(text, "1.234567;KDOWN;char=a\n2.000000;MDOWN;button=right;x=100;y=200\n");
    let mut p = MacroPlayer::new();
    assert_eq!(p.load_from_text(&text), 2);
}

#[test]
fn key_names_both_ways() {
    let cases: [(u32, &str); 12] = [
        (0x41, "a"), (0x5A, "z"), (0x30, "0"), (0x39, "9"), (0x70, "f1"), (0x7B, "f12"),
        (0x20, "space"), (0x22, "page_down"), (0xBA, ";"), (0xDC, "\\"), (0x07, "vk_7"), (0xFF, "vk_255"),
    ];
    for (vk, name) in cases {
        assert_eq!(vk_code_to_string(vk), name);
        assert_eq!(key_name_to_vk_code(name), Some(vk as u16), "{name}");
    }
    assert_eq!(key_name_to_vk_code("f13"), None);
    assert_eq!(key_name_to_vk_code("f"), Some(0x46));
    assert_eq!(key_name_to_vk_code("vk_70000"), None);
    assert_eq!(key_name_to_vk_code("nope"), None);
    assert_eq!(key_name_to_vk_code(""), None);
    assert_eq!(vk_code_to_string(70_000), "vk_70000");
}

#[test]
fn capture_helpers() {
    assert!(is_reserved_key(0x11));
    assert!(is_reserved_key(0x51));
    assert!(!is_reserved_key(0x41));
    assert_eq!(mouse_message_kind(0x0204), Some((EventType::MouseDown, Some(2))));
    assert_eq!(mouse_message_kind(0x020A), Some((EventType::MouseScroll, None)));
    assert_eq!(mouse_message_kind(0x0209), None);
    assert_eq!(wheel_delta(0x0078_0000), 120);
    assert_eq!(wheel_delta(0xFF88_0000), -120);
}
