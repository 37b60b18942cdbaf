use macro_recorder::controller::{AppState, MacroController, Stopped};
use macro_recorder::keys::keyboard_event;
use macro_recorder::player::Action;

#[test]
fn record_pause_stop_cycle() {
    let mut c = MacroController::new();
    assert!(c.start_recording(0));
    assert!(!c.start_recording(5));
    c.add_event(keyboard_event(10, 0x41, true));
    c.pause_resume(20);
    assert_eq!(c.get_state(), AppState::RecordingPaused);
    c.add_event(keyboard_event(30, 0x42, true));
    c.pause_resume(40);
    assert_eq!(c.get_state(), AppState::Recording);
    c.add_event(keyboard_event(50, 0x41, false));
    assert_eq!(c.stop_current_action(60), Stopped::Recording(2));
    assert_eq!(c.get_state(), AppState::Idle);
    assert_eq!(c.recording_text(), "0.000010;KDOWN;char=a\n0.000050;KUP;char=a\n");
    assert_eq!(c.stop_current_action(70), Stopped::Nothing);
}

#[test]
fn failed_hook_install_rolls_back() {
    let mut c = MacroController::new();
    assert!(c.start_recording(0));
    c.recording_failed(1);
    assert_eq!(c.get_state(), AppState::Idle);
    assert!(c.start_recording(2));
}

#[test]
fn playback_needs_a_loaded_file() {
    let mut c = MacroController::new();
    assert_eq!(c.start_playback(0, 100), None);
    assert_eq!(c.load_recording("# nothing\n"), Some(0));
    assert_eq!(c.start_playback(0, 100), None);
    assert_eq!(c.get_state(), AppState::Idle);
    assert_eq!(c.load_recording("0.0;MMOVE;x=1;y=1\n"), Some(1));
    let run = c.start_playback(0, 100).unwrap();
    assert_eq!(c.get_state(), AppState::Playing);
    assert_eq!(c.load_recording("0.0;MMOVE;x=2;y=2\n"), None);
    c.pause_resume(0);
    assert_eq!(c.get_state(), AppState::PlayingPaused);
    assert_eq!(c.next_action(run, 0), Action::Suspend);
    c.pause_resume(0);
    assert_eq!(c.next_action(run, 0), Action::Execute(0));
    assert_eq!(c.next_action(run, 0), Action::Finished);
    assert_eq!(c.get_state(), AppState::Idle);
    assert_eq!(c.player().get_current_position(), 1);
}

#[test]
fn stopping_playback_returns_to_idle() {
    let mut c = MacroController::new();
    c.load_recording("0.0;KDOWN;char=a\n9.0;KUP;char=a\n");
    let run = c.start_playback(0, 5000).unwrap();
    assert_eq!(c.player().get_speed(), 1000);
    assert_eq!(c.next_action(run, 0), Action::Execute(0));
    assert_eq!(c.stop_current_action(1), Stopped::Playback);
    assert_eq!(c.next_action(run, 2), Action::Finished);
    assert_eq!(c.get_state(), AppState::Idle);
}
