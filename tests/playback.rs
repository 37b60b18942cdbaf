use macro_recorder::events::{EventData, EventType, MacroEvent};
use macro_recorder::player::{injection_command, Action, InjectionCommand, MacroPlayer, PlayerState};

fn loaded(text: &str) -> MacroPlayer {
    let mut p = MacroPlayer::new();
    p.load_from_text(text);
    p
}

#[test]
fn load_sorts_stably_and_skips_noise() {
    let mut p = MacroPlayer::new();
    let n = p.load_from_text("3.0;KDOWN;char=c\n# note\n\n1.0;KDOWN;char=a\nbad line\n1.0;KUP;char=b\r\n0.5;MMOVE;x=1;y=2\n");
    assert_eq!(n, 4);
    assert_eq!(p.get_total_events(), 4);
    let got: Vec<(u64, Option<String>)> = (0..4).map(|i| {
        let e = p.event_at(i);
        (e.timestamp_us, e.data.key_name.clone())
    }).collect();
    assert_eq!(got, vec![
        (500_000, None),
        (1_000_000, Some("a".to_string())),
        (1_000_000, Some("b".to_string())),
        (3_000_000, Some("c".to_string())),
    ]);
    assert_eq!(p.get_state(), PlayerState::Idle);
    assert_eq!(p.get_current_position(), 0);
}

#[test]
fn start_on_empty_timeline_does_nothing() {
    let mut p = MacroPlayer::new();
    assert_eq!(p.start(0), None);
    assert_eq!(p.get_state(), PlayerState::Idle);
}

#[test]
fn speed_is_clamped() {
    let mut p = MacroPlayer::new();
    assert_eq!(p.get_speed(), 100);
    p.set_speed(1);
    assert_eq!(p.get_speed(), 10);
    p.set_speed(5000);
    assert_eq!(p.get_speed(), 1000);
    p.set_speed(250);
    assert_eq!(p.get_speed(), 250);
}

#[test]
fn double_speed_plays_second_event_at_half_a_second() {
    let mut p = loaded("0.0;KDOWN;char=a\n1.0;KUP;char=a\n");
    p.set_speed(200);
    let run = p.start(1_000).unwrap();
    assert_eq!(p.next_action(run, 1_000), Action::Execute(0));
    assert_eq!(p.next_action(run, 1_000), Action::Wait(10_000));
    assert_eq!(p.next_action(run, 500_995), Action::Wait(5));
    assert_eq!(p.next_action(run, 501_000), Action::Execute(1));
    assert_eq!(p.get_current_position(), 2);
    assert_eq!(p.next_action(run, 501_000), Action::Finished);
    assert_eq!(p.get_state(), PlayerState::Idle);
}

#[test]
fn pause_keeps_the_gap_between_events() {
    let mut p = loaded("0.0;MMOVE;x=0;y=0\n1.0;MMOVE;x=1;y=1\n2.0;MMOVE;x=2;y=2\n");
    let run = p.start(0).unwrap();
    assert_eq!(p.next_action(run, 0), Action::Execute(0));
    p.pause(200_000);
    assert_eq!(p.next_action(run, 1_500_000), Action::Suspend);
    p.resume(3_200_000);
    assert_eq!(p.get_state(), PlayerState::Playing);
    assert_eq!(p.next_action(run, 3_999_999), Action::Wait(1));
    assert_eq!(p.next_action(run, 4_000_000), Action::Execute(1));
    assert_eq!(p.next_action(run, 4_999_999), Action::Wait(1));
    assert_eq!(p.next_action(run, 5_000_000), Action::Execute(2));
}

#[test]
fn stop_with_five_left_freezes_the_cursor() {
    let text: String = (0..7).map(|i| format!("{i}.0;KDOWN;char=x\n")).collect();
    let mut p = loaded(&text);
    let run = p.start(0).unwrap();
    assert_eq!(p.next_action(run, 0), Action::Execute(0));
    assert_eq!(p.next_action(run, 1_000_000), Action::Execute(1));
    p.stop(1_200_000);
    assert_eq!(p.get_state(), PlayerState::Idle);
    for t in [1_300_000u64, 2_000_000, 9_000_000] {
        assert_eq!(p.next_action(run, t), Action::Finished);
    }
    assert_eq!(p.get_current_position(), 2);
}

#[test]
fn a_new_start_ends_the_previous_run() {
    let mut p = loaded("0.0;KDOWN;char=a\n5.0;KUP;char=a\n");
    let first = p.start(0).unwrap();
    assert_eq!(p.next_action(first, 0), Action::Execute(0));
    let second = p.start(10).unwrap();
    assert_ne!(first, second);
    assert_eq!(p.next_action(first, 10), Action::Finished);
    assert_eq!(p.next_action(second, 10), Action::Execute(0));
}

#[test]
fn commands_for_events() {
    let e = MacroEvent::from_mcr_line("1.0;MSCROLL;dx=0;dy=-1;x=3;y=4").unwrap();
    match injection_command(&e) {
        Some(InjectionCommand::ScrollEvent { x, y, step }) => assert_eq!((x, y, step), (3, 4, -1)),
        other => panic!("{other:?}"),
    }
    let mut d = EventData::new();
    d.x = Some(1);
    d.y = Some(2);
    d.delta = Some(240);
    match injection_command(&MacroEvent::with_data(0, EventType::MouseScroll, d)) {
        Some(InjectionCommand::ScrollEvent { step, .. }) => assert_eq!(step, 1),
        other => panic!("{other:?}"),
    }
    let k = MacroEvent::from_mcr_line("1.0;KUP;char=enter").unwrap();
    match injection_command(&k) {
        Some(InjectionCommand::KeyEvent { key_name, down }) => assert_eq!((key_name.as_str(), down), ("enter", false)),
        other => panic!("{other:?}"),
    }
    let b = MacroEvent::from_mcr_line("1.0;MDOWN;button=left;x=5;y=6").unwrap();
    match injection_command(&b) {
        Some(InjectionCommand::ButtonEvent { x, y, button, down }) => assert_eq!((x, y, button, down), (5, 6, 1, true)),
        other => panic!("{other:?}"),
    }
    assert!(injection_command(&MacroEvent::new(0, EventType::MouseMove)).is_none());
}
