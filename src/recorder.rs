use vstd::prelude::*;
use crate::events::{EventView, MacroEvent, encode};
use crate::player::events_view;

verus! {

#[derive(Debug, Clone, Copy, PartialEq, Eq, Structural)]
pub enum RecorderState {
    Idle,
    Recording,
    Paused,
}

pub struct RecorderView {
    pub events: Seq<EventView>,
    pub state: RecorderState,
    pub start_us: u64,
    pub pause_start_us: u64,
    pub total_pause_us: u64,
    pub stop_us: u64,
}

/// Assembles a timeline from the events delivered while recording. The clock
/// is handed in by the caller as a monotonic reading in microseconds.
pub struct MacroRecorder {
    events: Vec<MacroEvent>,
    state: RecorderState,
    start_us: u64,
    pause_start_us: u64,
    total_pause_us: u64,
    stop_us: u64,
}

impl View for MacroRecorder {
    type V = RecorderView;

    closed spec fn view(&self) -> RecorderView {
        RecorderView {
            events: events_view(self.events@),
            state: self.state,
            start_us: self.start_us,
            pause_start_us: self.pause_start_us,
            total_pause_us: self.total_pause_us,
            stop_us: self.stop_us,
        }
    }
}

/// `a - b - c`, or 0 when that is negative.
pub open spec fn span_less(a: u64, b: u64, c: u64) -> u64 {
    if a - b - c > 0 {
        (a - b - c) as u64
    } else {
        0
    }
}

/// Recorded time: since the start, less the time paused; it stands still
/// while paused and after the stop.
pub open spec fn duration_spec(v: RecorderView, now: u64) -> u64 {
    match v.state {
        RecorderState::Recording => span_less(now, v.start_us, v.total_pause_us),
        RecorderState::Paused => span_less(v.pause_start_us, v.start_us, v.total_pause_us),
        RecorderState::Idle => span_less(v.stop_us, v.start_us, v.total_pause_us),
    }
}

pub open spec fn add_paused(total: u64, start: u64, now: u64) -> u64 {
    let d = if now > start { now - start } else { 0 };
    if total + d > u64::MAX {
        u64::MAX
    } else {
        (total + d) as u64
    }
}

/// The text file of a timeline: one line per event, in order.
pub open spec fn timeline_text(s: Seq<EventView>) -> Seq<char>
    decreases s.len(),
{
    if s.len() == 0 {
        Seq::empty()
    } else {
        timeline_text(s.drop_last()) + encode(s.last()) + seq!['\n']
    }
}

/// While recording, the recorded time never goes backwards.
pub proof fn lemma_duration_monotonic(v: RecorderView, t1: u64, t2: u64)
    requires
        v.state == RecorderState::Recording,
        t1 <= t2,
    ensures
        duration_spec(v, t1) <= duration_spec(v, t2),
{
}

/// While paused or stopped, the recorded time stands still.
pub proof fn lemma_duration_frozen(v: RecorderView, t1: u64, t2: u64)
    requires
        v.state != RecorderState::Recording,
    ensures
        duration_spec(v, t1) == duration_spec(v, t2),
{
}

impl MacroRecorder {
    pub fn new() -> (r: MacroRecorder)
        ensures
            r@.events.len() == 0,
            r@.state == RecorderState::Idle,
            r@.start_us == 0 && r@.stop_us == 0 && r@.total_pause_us == 0,
    {
        let r = MacroRecorder {
            events: Vec::new(),
            state: RecorderState::Idle,
            start_us: 0,
            pause_start_us: 0,
            total_pause_us: 0,
            stop_us: 0,
        };
        assert(r@.events =~= Seq::<EventView>::empty());
        r
    }

    /// Empties the timeline; only while idle.
    pub fn clear(&mut self)
        ensures
            final(self)@ == if old(self)@.state == RecorderState::Idle {
                RecorderView { events: Seq::empty(), ..old(self)@ }
            } else {
                old(self)@
            },
    {
        if self.state == RecorderState::Idle {
            self.events = Vec::new();
            assert(events_view(self.events@) =~= Seq::<EventView>::empty());
        }
    }

    /// Starts recording at `now_us`; only while idle.
    pub fn start(&mut self, now_us: u64)
        ensures
            final(self)@ == if old(self)@.state == RecorderState::Idle {
                RecorderView {
                    state: RecorderState::Recording,
                    start_us: now_us,
                    pause_start_us: now_us,
                    total_pause_us: 0,
                    stop_us: now_us,
                    ..old(self)@
                }
            } else {
                old(self)@
            },
    {
        if self.state == RecorderState::Idle {
            self.state = RecorderState::Recording;
            self.start_us = now_us;
            self.pause_start_us = now_us;
            self.total_pause_us = 0;
            self.stop_us = now_us;
        }
    }

    /// Appends an event while recording; at any other time the event is
    /// dropped.
    pub fn add_event(&mut self, event: MacroEvent)
        ensures
            final(self)@ == if old(self)@.state == RecorderState::Recording {
                RecorderView { events: old(self)@.events.push(event@), ..old(self)@ }
            } else {
                old(self)@
            },
    {
        if self.state == RecorderState::Recording {
            let ghost e = event@;
            self.events.push(event);
            assert(events_view(self.events@) =~= old(self)@.events.push(e));
        }
    }

    pub fn pause(&mut self, now_us: u64)
        ensures
            final(self)@ == if old(self)@.state == RecorderState::Recording {
                RecorderView { state: RecorderState::Paused, pause_start_us: now_us, ..old(self)@ }
            } else {
                old(self)@
            },
    {
        if self.state == RecorderState::Recording {
            self.state = RecorderState::Paused;
            self.pause_start_us = now_us;
        }
    }

    fn close_pause(&mut self, now_us: u64)
        ensures
            final(self)@ == (RecorderView {
                total_pause_us: add_paused(old(self)@.total_pause_us, old(self)@.pause_start_us, now_us),
                ..old(self)@
            }),
    {
        let d: u64 = if now_us > self.pause_start_us { now_us - self.pause_start_us } else { 0 };
        self.total_pause_us = if self.total_pause_us > u64::MAX - d {
            u64::MAX
        } else {
            self.total_pause_us + d
        };
    }

    /// Resumes recording; the time spent paused is added to the paused total.
    pub fn resume(&mut self, now_us: u64)
        ensures
            final(self)@ == if old(self)@.state == RecorderState::Paused {
                RecorderView {
                    state: RecorderState::Recording,
                    total_pause_us: add_paused(
                        old(self)@.total_pause_us,
                        old(self)@.pause_start_us,
                        now_us,
                    ),
                    ..old(self)@
                }
            } else {
                old(self)@
            },
    {
        if self.state == RecorderState::Paused {
            self.close_pause(now_us);
            self.state = RecorderState::Recording;
        }
    }

    /// Stops recording; the timeline is kept.
    pub fn stop(&mut self, now_us: u64)
        ensures
            final(self)@ == match old(self)@.state {
                RecorderState::Recording => RecorderView {
                    state: RecorderState::Idle,
                    stop_us: now_us,
                    ..old(self)@
                },
                RecorderState::Paused => RecorderView {
                    state: RecorderState::Idle,
                    stop_us: old(self)@.pause_start_us,
                    ..old(self)@
                },
                RecorderState::Idle => old(self)@,
            },
    {
        match self.state {
            RecorderState::Recording => {
                self.state = RecorderState::Idle;
                self.stop_us = now_us;
            },
            RecorderState::Paused => {
                self.state = RecorderState::Idle;
                self.stop_us = self.pause_start_us;
            },
            RecorderState::Idle => {},
        }
    }

    pub fn get_state(&self) -> (r: RecorderState)
        ensures
            r == self@.state,
    {
        self.state
    }

    /// The timeline captured so far.
    pub fn get_events(&self) -> (r: &Vec<MacroEvent>)
        ensures
            events_view(r@) == self@.events,
    {
        &self.events
    }

    /// The recorded time at `now_us`, in microseconds.
    pub fn get_duration(&self, now_us: u64) -> (r: u64)
        ensures
            r == duration_spec(self@, now_us),
    {
        let end = match self.state {
            RecorderState::Recording => now_us,
            RecorderState::Paused => self.pause_start_us,
            RecorderState::Idle => self.stop_us,
        };
        let since: u64 = if end > self.start_us { end - self.start_us } else { 0 };
        if since > self.total_pause_us {
            since - self.total_pause_us
        } else {
            0
        }
    }

    /// The timeline as the text of a file: one encoded line per event.
    pub fn to_mcr_text(&self) -> (r: String)
        ensures
            r@ == timeline_text(self@.events),
    {
        let mut out = String::new();
        let mut i: usize = 0;
        let ghost s = events_view(self.events@);
        assert(s.take(0) =~= Seq::<EventView>::empty());
        while i < self.events.len()
            invariant
                i <= self.events@.len(),
                s == events_view(self.events@),
                out@ == timeline_text(s.take(i as int)),
            decreases self.events@.len() - i,
        {
            let line = self.events[i].to_mcr_line();
            out.append(line.as_str());
            out.append("\n");
            proof {
                reveal_strlit("\n");
                assert(s.take(i + 1).drop_last() =~= s.take(i as int));
            }
            i = i + 1;
        }
        assert(s.take(i as int) =~= s);
        out
    }
}

} // verus!
