use macro_recorder::events::{EventData, EventType, MacroEvent};

fn key_event(ts: u64, kind: EventType, name: &str) -> MacroEvent {
    let mut data = EventData::new();
    data.key_name = Some(name.to_string());
    MacroEvent::with_data(ts, kind, data)
}

fn mouse(ts: u64, kind: EventType, x: i64, y: i64, button: Option<u64>, delta: Option<i64>) -> MacroEvent {
    let mut data = EventData::new();
    data.x = Some(x);
    data.y = Some(y);
    data.button = button;
    data.delta = delta;
    MacroEvent::with_data(ts, kind, data)
}

#[test]
fn encode_key_down_scenario() {
    let e = key_event(1_234_567, EventType::KeyDown, "a");
    assert_eq!(e.to_mcr_line(), "1.234567;KDOWN;char=a");
}

#[test]
fn encode_mouse_down_scenario() {
    let e = mouse(2_000_000, EventType::MouseDown, 100, 200, Some(2), None);
    assert_eq!(e.to_mcr_line(), "2.000000;MDOWN;button=right;x=100;y=200");
}

#[test]
fn encode_other_kinds() {
    assert_eq!(mouse(0, EventType::MouseMove, -5, 7, None, None).to_mcr_line(), "0.000000;MMOVE;x=-5;y=7");
    assert_eq!(
        mouse(12_000_001, EventType::MouseScroll, 3, 4, None, Some(-240)).to_mcr_line(),
        "12.000001;MSCROLL;dx=0;dy=-1;x=3;y=4"
    );
    assert_eq!(
        mouse(1, EventType::MouseUp, 0, 0, Some(9), None).to_mcr_line(),
        "0.000001;MUP;button=unknown;x=0;y=0"
    );
    assert_eq!(MacroEvent::new(500_000, EventType::KeyUp).to_mcr_line(), "0.500000;KUP");
    let mut partial = EventData::new();
    partial.x = Some(1);
    assert_eq!(MacroEvent::with_data(0, EventType::MouseMove, partial).to_mcr_line(), "0.000000;MMOVE");
}

#[test]
fn round_trip_exact_for_keys_moves_and_buttons() {
    let events = vec![
        key_event(1_234_567, EventType::KeyDown, "page_up"),
        key_event(3, EventType::KeyUp, "="),
        mouse(42, EventType::MouseMove, -100, i64::MAX, None, None),
        mouse(7_000_000, EventType::MouseDown, i64::MIN, 1, Some(1), None),
        mouse(u64::MAX, EventType::MouseUp, 5, 6, Some(3), None),
    ];
    for e in events {
        let back = MacroEvent::from_mcr_line(&e.to_mcr_line()).unwrap();
        assert_eq!(back.timestamp_us, e.timestamp_us);
        assert_eq!(back.event_type, e.event_type);
        assert_eq!(back.data.key_name, e.data.key_name);
        assert_eq!(back.data.x, e.data.x);
        assert_eq!(back.data.y, e.data.y);
        assert_eq!(back.data.button, e.data.button);
        assert!(back.data.extra.is_empty());
    }
}

#[test]
fn scroll_round_trip_keeps_only_the_sign() {
    let up = MacroEvent::from_mcr_line(&mouse(5, EventType::MouseScroll, 10, 20, None, Some(360)).to_mcr_line()).unwrap();
    assert_eq!((up.timestamp_us, up.event_type, up.data.x, up.data.y), (5, EventType::MouseScroll, Some(10), Some(20)));
    assert_eq!(up.data.dy, Some(1));
    assert_eq!(up.data.dx, Some(0));
    assert_eq!(up.data.delta, None);
    let down = MacroEvent::from_mcr_line(&mouse(5, EventType::MouseScroll, 10, 20, None, Some(-1)).to_mcr_line()).unwrap();
    assert_eq!(down.data.dy, Some(-1));
}

#[test]
fn out_of_range_button_reads_back_as_zero() {
    for (code, back) in [(1u64, 1u64), (2, 2), (3, 3), (0, 0), (4, 0), (77, 0)] {
        let e = mouse(1, EventType::MouseDown, 1, 2, Some(code), None);
        let r = MacroEvent::from_mcr_line(&e.to_mcr_line()).unwrap();
        assert_eq!(r.data.button, Some(back));
    }
}

#[test]
fn blank_comment_and_unknown_lines_hold_nothing() {
    for line in ["", "   ", "\t\r", "# a comment", "  #1.0;KDOWN;char=a", "1.0;KPRESS;char=a", "1.0", "abc;KDOWN", "-1.0;KDOWN", "1.0.0;KUP", ".;KUP"] {
        assert!(MacroEvent::from_mcr_line(line).is_none(), "{line}");
    }
}

#[test]
fn decode_tolerates_odd_fields() {
    let e = MacroEvent::from_mcr_line("  1.5;MMOVE;x=12;y=oops;z=9;noequals;x=13;z=10  ").unwrap();
    assert_eq!(e.timestamp_us, 1_500_000);
    assert_eq!(e.data.x, Some(13));
    assert_eq!(e.data.y, None);
    assert_eq!(e.data.extra, vec![("z".to_string(), "10".to_string())]);
    let f = MacroEvent::from_mcr_line(".25;KDOWN;char=a=b").unwrap();
    assert_eq!(f.timestamp_us, 250_000);
    assert_eq!(f.data.key_name.as_deref(), Some("a=b"));
    let g = MacroEvent::from_mcr_line("7.1234569;MUP;button=middle;x=+4;y=-0").unwrap();
    assert_eq!(g.timestamp_us, 7_123_456);
    assert_eq!((g.data.button, g.data.x, g.data.y), (Some(3), Some(4), Some(0)));
    let h = MacroEvent::from_mcr_line("3.;MDOWN;button=LEFT;x=99999999999999999999").unwrap();
    assert_eq!(h.timestamp_us, 3_000_000);
    assert_eq!((h.data.button, h.data.x), (Some(0), None));
}

#[test]
fn timestamp_limits() {
    assert_eq!(MacroEvent::from_mcr_line("18446744073709.551615;KUP").unwrap().timestamp_us, u64::MAX);
    assert!(MacroEvent::from_mcr_line("18446744073709.551616;KUP").is_none());
}

#[test]
fn codes_parse() {
    assert_eq!(EventType::from_str("KDOWN"), Some(EventType::KeyDown));
    assert_eq!(EventType::from_str("KUP"), Some(EventType::KeyUp));
    assert_eq!(EventType::from_str("MMOVE"), Some(EventType::MouseMove));
    assert_eq!(EventType::from_str("MDOWN"), Some(EventType::MouseDown));
    assert_eq!(EventType::from_str("MUP"), Some(EventType::MouseUp));
    assert_eq!(EventType::from_str("MSCROLL"), Some(EventType::MouseScroll));
    assert_eq!(EventType::from_str("kdown"), None);
    assert_eq!(EventType::MouseScroll.code(), "MSCROLL");
}

#[test]
fn descriptions() {
    assert_eq!(key_event(0, EventType::KeyDown, "a").get_description(), "Key Down: a");
    assert_eq!(MacroEvent::new(0, EventType::KeyUp).get_description(), "Key Up");
    assert_eq!(mouse(0, EventType::MouseMove, 1, -2, None, None).get_description(), "Mouse Move: (1, -2)");
    assert_eq!(mouse(0, EventType::MouseDown, 3, 4, Some(2), None).get_description(), "Right Click Down: (3, 4)");
    assert_eq!(mouse(0, EventType::MouseUp, 3, 4, Some(8), None).get_description(), "Unknown Click Up: (3, 4)");
    assert_eq!(mouse(0, EventType::MouseScroll, 5, 6, None, Some(120)).get_description(), "Scroll Up: (5, 6)");
    assert_eq!(MacroEvent::new(0, EventType::MouseScroll).get_description(), "Scroll Down");
    assert_eq!(MacroEvent::new(0, EventType::MouseDown).get_description(), "Unknown Click Down");
    assert!(mouse(0, EventType::MouseMove, 0, 0, None, None).is_mouse_move());
    assert!(!MacroEvent::new(0, EventType::KeyUp).is_mouse_move());
}
