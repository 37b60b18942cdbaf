use vstd::prelude::*;
use crate::events::MacroEvent;
use crate::player::{Action, MacroPlayer, PlayerState, PlayerView, clamp_speed, player_wf};
use crate::recorder::{MacroRecorder, RecorderState, RecorderView};

verus! {

/// What the front end is doing.
#[derive(Debug, Clone, Copy, PartialEq, Eq, Structural)]
pub enum AppState {
    Idle,
    Recording,
    RecordingPaused,
    Playing,
    PlayingPaused,
}

/// What `stop_current_action` ended.
#[derive(Debug, Clone, Copy, PartialEq, Eq, Structural)]
pub enum Stopped {
    Nothing,
    /// A recording, with this many events captured.
    Recording(usize),
    Playback,
}

pub struct ControllerView {
    pub state: AppState,
    pub recorder: RecorderView,
    pub player: PlayerView,
    pub has_file: bool,
}

/// The recorder, the player and which of them is active, driven by the
/// front end's commands. The clock is handed in as microseconds.
pub struct MacroController {
    state: AppState,
    recorder: MacroRecorder,
    player: MacroPlayer,
    has_file: bool,
}

impl View for MacroController {
    type V = ControllerView;

    closed spec fn view(&self) -> ControllerView {
        ControllerView {
            state: self.state,
            recorder: self.recorder@,
            player: self.player@,
            has_file: self.has_file,
        }
    }
}

/// The active component agrees with the front end's state; the other idles.
pub open spec fn controller_wf(c: ControllerView) -> bool {
    &&& player_wf(c.player)
    &&& match c.state {
        AppState::Idle => c.recorder.state == RecorderState::Idle && c.player.state == PlayerState::Idle,
        AppState::Recording => c.recorder.state == RecorderState::Recording && c.player.state
            == PlayerState::Idle,
        AppState::RecordingPaused => c.recorder.state == RecorderState::Paused && c.player.state
            == PlayerState::Idle,
        AppState::Playing => c.recorder.state == RecorderState::Idle && c.player.state
            == PlayerState::Playing,
        AppState::PlayingPaused => c.recorder.state == RecorderState::Idle && c.player.state
            == PlayerState::Paused,
    }
}

impl MacroController {
    pub fn new() -> (r: MacroController)
        ensures
            controller_wf(r@),
            r@.state == AppState::Idle,
            !r@.has_file,
            r@.recorder.events.len() == 0,
            r@.player.events.len() == 0,
    {
        MacroController {
            state: AppState::Idle,
            recorder: MacroRecorder::new(),
            player: MacroPlayer::new(),
            has_file: false,
        }
    }

    pub fn get_state(&self) -> (r: AppState)
        ensures
            r == self@.state,
    {
        self.state
    }

    pub fn recorder(&self) -> (r: &MacroRecorder)
        ensures
            r@ == self@.recorder,
    {
        &self.recorder
    }

    pub fn player(&self) -> (r: &MacroPlayer)
        ensures
            r@ == self@.player,
    {
        &self.player
    }

    /// Starts a new recording from idle, on an empty timeline. The caller
    /// then installs the input hooks, and calls `recording_failed` if that
    /// fails.
    pub fn start_recording(&mut self, now_us: u64) -> (r: bool)
        requires
            controller_wf(old(self)@),
        ensures
            controller_wf(final(self)@),
            r == (old(self)@.state == AppState::Idle),
            r ==> final(self)@ == (ControllerView {
                state: AppState::Recording,
                recorder: RecorderView {
                    events: Seq::empty(),
                    state: RecorderState::Recording,
                    start_us: now_us,
                    pause_start_us: now_us,
                    total_pause_us: 0,
                    stop_us: now_us,
                    ..old(self)@.recorder
                },
                ..old(self)@
            }),
            !r ==> final(self)@ == old(self)@,
    {
        if self.state != AppState::Idle {
            return false;
        }
        self.recorder.clear();
        self.recorder.start(now_us);
        self.state = AppState::Recording;
        true
    }

    /// Rolls a recording whose hooks could not be installed back to idle.
    pub fn recording_failed(&mut self, now_us: u64)
        requires
            controller_wf(old(self)@),
        ensures
            controller_wf(final(self)@),
            old(self)@.state == AppState::Recording ==> final(self)@ == (ControllerView {
                state: AppState::Idle,
                recorder: RecorderView {
                    state: RecorderState::Idle,
                    stop_us: now_us,
                    ..old(self)@.recorder
                },
                ..old(self)@
            }),
            old(self)@.state != AppState::Recording ==> final(self)@ == old(self)@,
    {
        if self.state == AppState::Recording {
            self.recorder.stop(now_us);
            self.state = AppState::Idle;
        }
    }

    /// Passes a captured event to the recorder, which keeps it only while
    /// recording.
    pub fn add_event(&mut self, event: MacroEvent)
        requires
            controller_wf(old(self)@),
        ensures
            controller_wf(final(self)@),
            final(self)@ == (ControllerView {
                recorder: if old(self)@.state == AppState::Recording {
                    RecorderView {
                        events: old(self)@.recorder.events.push(event@),
                        ..old(self)@.recorder
                    }
                } else {
                    old(self)@.recorder
                },
                ..old(self)@
            }),
    {
        self.recorder.add_event(event);
    }

    /// Toggles pause on whichever of recording and playback is active.
    pub fn pause_resume(&mut self, now_us: u64)
        requires
            controller_wf(old(self)@),
        ensures
            controller_wf(final(self)@),
            final(self)@ == match old(self)@.state {
                AppState::Recording => ControllerView {
                    state: AppState::RecordingPaused,
                    recorder: RecorderView {
                        state: RecorderState::Paused,
                        pause_start_us: now_us,
                        ..old(self)@.recorder
                    },
                    ..old(self)@
                },
                AppState::RecordingPaused => ControllerView {
                    state: AppState::Recording,
                    recorder: RecorderView {
                        state: RecorderState::Recording,
                        total_pause_us: crate::recorder::add_paused(
                            old(self)@.recorder.total_pause_us,
                            old(self)@.recorder.pause_start_us,
                            now_us,
                        ),
                        ..old(self)@.recorder
                    },
                    ..old(self)@
                },
                AppState::Playing => ControllerView {
                    state: AppState::PlayingPaused,
                    player: PlayerView {
                        state: PlayerState::Paused,
                        pause_start_us: now_us,
                        ..old(self)@.player
                    },
                    ..old(self)@
                },
                AppState::PlayingPaused => ControllerView {
                    state: AppState::Playing,
                    player: PlayerView {
                        state: PlayerState::Playing,
                        total_pause_us: crate::player::add_pause(
                            old(self)@.player.total_pause_us,
                            old(self)@.player.pause_start_us,
                            now_us,
                        ),
                        ..old(self)@.player
                    },
                    ..old(self)@
                },
                AppState::Idle => old(self)@,
            },
    {
        match self.state {
            AppState::Recording => {
                self.recorder.pause(now_us);
                self.state = AppState::RecordingPaused;
            },
            AppState::RecordingPaused => {
                self.recorder.resume(now_us);
                self.state = AppState::Recording;
            },
            AppState::Playing => {
                self.player.pause(now_us);
                self.state = AppState::PlayingPaused;
            },
            AppState::PlayingPaused => {
                self.player.resume(now_us);
                self.state = AppState::Playing;
            },
            AppState::Idle => {},
        }
    }

    /// Stops whichever of recording and playback is active and returns to
    /// idle. The caller removes the input hooks before stopping a recording.
    pub fn stop_current_action(&mut self, now_us: u64) -> (r: Stopped)
        requires
            controller_wf(old(self)@),
        ensures
            controller_wf(final(self)@),
            final(self)@.state == AppState::Idle,
            final(self)@.has_file == old(self)@.has_file,
            final(self)@.recorder.events == old(self)@.recorder.events,
            final(self)@.player.events == old(self)@.player.events,
            final(self)@.player.position == old(self)@.player.position,
            match old(self)@.state {
                AppState::Recording | AppState::RecordingPaused => r == Stopped::Recording(
                    old(self)@.recorder.events.len() as usize,
                ),
                AppState::Playing | AppState::PlayingPaused => r == Stopped::Playback,
                AppState::Idle => r == Stopped::Nothing && final(self)@ == old(self)@,
            },
    {
        match self.state {
            AppState::Recording | AppState::RecordingPaused => {
                self.recorder.stop(now_us);
                self.state = AppState::Idle;
                let events = self.recorder.get_events();
                let n = events.len();
                assert(crate::player::events_view(events@).len() == n);
                Stopped::Recording(n)
            },
            AppState::Playing | AppState::PlayingPaused => {
                self.player.stop(now_us);
                self.state = AppState::Idle;
                Stopped::Playback
            },
            AppState::Idle => Stopped::Nothing,
        }
    }

    /// Loads a timeline from a file's text; only while idle.
    pub fn load_recording(&mut self, text: &str) -> (r: Option<usize>)
        requires
            controller_wf(old(self)@),
        ensures
            controller_wf(final(self)@),
            old(self)@.state == AppState::Idle ==> r == Some(
                crate::player::timeline_of(text@).len() as usize,
            ) && final(self)@ == (ControllerView {
                has_file: true,
                player: PlayerView {
                    events: crate::player::timeline_of(text@),
                    state: PlayerState::Idle,
                    position: 0,
                    ..old(self)@.player
                },
                ..old(self)@
            }),
            old(self)@.state != AppState::Idle ==> r is None && final(self)@ == old(self)@,
    {
        if self.state != AppState::Idle {
            return None;
        }
        let n = self.player.load_from_text(text);
        self.has_file = true;
        Some(n)
    }

    /// Starts playing the loaded timeline at `speed` hundredths of normal
    /// speed; only while idle with a file loaded and a non-empty timeline.
    /// Returns the run number for the scheduling loop.
    pub fn start_playback(&mut self, now_us: u64, speed: u32) -> (r: Option<u64>)
        requires
            controller_wf(old(self)@),
        ensures
            controller_wf(final(self)@),
            r is Some <==> (old(self)@.state == AppState::Idle && old(self)@.has_file
                && old(self)@.player.events.len() > 0),
            r is Some ==> final(self)@.state == AppState::Playing && final(self)@.player.run_id
                == r->0 && final(self)@.player.position == 0 && final(self)@.player.run_speed
                == clamp_speed(speed) && final(self)@.player.start_us == now_us
                && final(self)@.player.events == old(self)@.player.events,
            r is None ==> final(self)@.state == old(self)@.state,
    {
        if self.state != AppState::Idle || !self.has_file || self.player.get_total_events() == 0 {
            return None;
        }
        self.player.set_speed(speed);
        let run = self.player.start(now_us);
        self.state = AppState::Playing;
        run
    }

    /// The scheduling loop's next decision (see `MacroPlayer::next_action`);
    /// when the playback ends the front end returns to idle.
    pub fn next_action(&mut self, run: u64, now_us: u64) -> (r: Action)
        requires
            controller_wf(old(self)@),
        ensures
            controller_wf(final(self)@),
            (final(self)@.player, r) == crate::player::next_step(old(self)@.player, run, now_us),
            final(self)@.recorder == old(self)@.recorder,
            final(self)@.state == if final(self)@.player.state == PlayerState::Idle
                && (old(self)@.state == AppState::Playing || old(self)@.state == AppState::PlayingPaused) {
                AppState::Idle
            } else {
                old(self)@.state
            },
    {
        let r = self.player.next_action(run, now_us);
        if self.player.get_state() == PlayerState::Idle && (self.state == AppState::Playing
            || self.state == AppState::PlayingPaused) {
            self.state = AppState::Idle;
        }
        r
    }

    /// The text of the recorded timeline, for saving.
    pub fn recording_text(&self) -> (r: String)
        ensures
            r@ == crate::recorder::timeline_text(self@.recorder.events),
    {
        self.recorder.to_mcr_text()
    }
}

} // verus!
