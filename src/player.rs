use vstd::prelude::*;
use vstd::seq_lib::{to_multiset_build, to_multiset_insert};
use crate::events::{
    EventType, EventView, MacroEvent, decode, scroll_step, span_texts,
    spans_within, split_spans,
};
use crate::text::{chars_of, split_on};

verus! {

/// Slowest playback speed, in hundredths of normal speed.
pub const MIN_SPEED: u32 = 10;

/// Fastest playback speed, in hundredths of normal speed.
pub const MAX_SPEED: u32 = 1000;

/// Normal playback speed, in hundredths.
pub const NORMAL_SPEED: u32 = 100;

/// The longest single wait the scheduler asks for, in microseconds, so that a
/// pause or a stop is seen promptly.
pub const WAIT_SLICE_US: u64 = 10_000;

#[derive(Debug, Clone, Copy, PartialEq, Eq, Structural)]
pub enum PlayerState {
    Idle,
    Playing,
    Paused,
}

/// What the scheduling loop is to do next.
#[derive(Debug, Clone, Copy, PartialEq, Eq, Structural)]
pub enum Action {
    /// Inject the event at this index of the timeline (the cursor has moved past it).
    Execute(usize),
    /// Sleep this many microseconds, then ask again.
    Wait(u64),
    /// Playback is paused: sleep a short while, then ask again.
    Suspend,
    /// This playback is over: leave the loop.
    Finished,
}

/// A synthetic input the injection side is to perform.
#[derive(Debug, Clone)]
pub enum InjectionCommand {
    MoveCursor { x: i64, y: i64 },
    ButtonEvent { x: i64, y: i64, button: u64, down: bool },
    KeyEvent { key_name: String, down: bool },
    ScrollEvent { x: i64, y: i64, step: i64 },
}

pub struct PlayerView {
    pub events: Seq<EventView>,
    pub state: PlayerState,
    pub position: nat,
    pub start_us: u64,
    pub pause_start_us: u64,
    pub total_pause_us: u64,
    pub speed: u32,
    pub run_speed: u32,
    pub run_id: u64,
}

/// Replays a timeline. The clock is handed in by the caller as a monotonic
/// reading in microseconds.
pub struct MacroPlayer {
    events: Vec<MacroEvent>,
    state: PlayerState,
    current_position: usize,
    start_us: u64,
    pause_start_us: u64,
    total_pause_us: u64,
    speed: u32,
    run_speed: u32,
    run_id: u64,
}

pub open spec fn events_view(s: Seq<MacroEvent>) -> Seq<EventView> {
    s.map_values(|e: MacroEvent| e@)
}

impl View for MacroPlayer {
    type V = PlayerView;

    closed spec fn view(&self) -> PlayerView {
        PlayerView {
            events: events_view(self.events@),
            state: self.state,
            position: self.current_position as nat,
            start_us: self.start_us,
            pause_start_us: self.pause_start_us,
            total_pause_us: self.total_pause_us,
            speed: self.speed,
            run_speed: self.run_speed,
            run_id: self.run_id,
        }
    }
}

pub open spec fn player_wf(v: PlayerView) -> bool {
    &&& MIN_SPEED <= v.speed <= MAX_SPEED
    &&& MIN_SPEED <= v.run_speed <= MAX_SPEED
    &&& v.position <= v.events.len()
}

/// The events of a list of lines, in order, skipping lines that hold none.
pub open spec fn decode_all(lines: Seq<Seq<char>>) -> Seq<EventView>
    decreases lines.len(),
{
    if lines.len() == 0 {
        Seq::empty()
    } else {
        let p = decode_all(lines.drop_last());
        match decode(lines.last()) {
            Some(e) => p.push(e),
            None => p,
        }
    }
}

/// Where an event at time `t` goes in a timeline: after every event that is
/// not later than it.
pub open spec fn insert_pos(s: Seq<EventView>, t: u64) -> int
    decreases s.len(),
{
    if s.len() == 0 {
        0
    } else if s.last().timestamp_us > t {
        insert_pos(s.drop_last(), t)
    } else {
        s.len() as int
    }
}

pub open spec fn insert_by_time(s: Seq<EventView>, e: EventView) -> Seq<EventView> {
    s.insert(insert_pos(s, e.timestamp_us), e)
}

/// The events stably sorted by timestamp.
pub open spec fn sort_by_time(s: Seq<EventView>) -> Seq<EventView>
    decreases s.len(),
{
    if s.len() == 0 {
        s
    } else {
        insert_by_time(sort_by_time(s.drop_last()), s.last())
    }
}

pub open spec fn sorted_by_time(s: Seq<EventView>) -> bool {
    forall|i: int, j: int| 0 <= i < j < s.len() ==> s[i].timestamp_us <= s[j].timestamp_us
}

/// The timeline that a text file holds.
pub open spec fn timeline_of(text: Seq<char>) -> Seq<EventView> {
    sort_by_time(decode_all(split_on(text, '\n')))
}

/// How far into the playback an event is due, in microseconds.
pub open spec fn target_us(t: u64, speed: u32) -> int {
    (t as int * 100) / (speed as int)
}

/// Time played so far: time since the start, less the time spent paused.
pub open spec fn elapsed_us(v: PlayerView, now: u64) -> int {
    let e = now - v.start_us - v.total_pause_us;
    if e > 0 {
        e
    } else {
        0
    }
}

pub open spec fn wait_for(remaining: int) -> u64 {
    if remaining < WAIT_SLICE_US {
        remaining as u64
    } else {
        WAIT_SLICE_US
    }
}

/// One decision of the scheduling loop of run `run` at time `now`.
pub open spec fn next_step(v: PlayerView, run: u64, now: u64) -> (PlayerView, Action) {
    if run != v.run_id || v.state == PlayerState::Idle {
        (v, Action::Finished)
    } else if v.state == PlayerState::Paused {
        (v, Action::Suspend)
    } else if v.position >= v.events.len() {
        (PlayerView { state: PlayerState::Idle, ..v }, Action::Finished)
    } else {
        let target = target_us(v.events[v.position as int].timestamp_us, v.run_speed);
        let el = elapsed_us(v, now);
        if target > el {
            (v, Action::Wait(wait_for(target - el)))
        } else {
            (PlayerView { position: v.position + 1, ..v }, Action::Execute(v.position as usize))
        }
    }
}

/// Paused time, added without overflow.
pub open spec fn add_pause(total: u64, start: u64, now: u64) -> u64 {
    let d = if now > start { now - start } else { 0 };
    if total + d > u64::MAX {
        u64::MAX
    } else {
        (total + d) as u64
    }
}

pub open spec fn clamp_speed(s: u32) -> u32 {
    if s < MIN_SPEED {
        MIN_SPEED
    } else if s > MAX_SPEED {
        MAX_SPEED
    } else {
        s
    }
}

proof fn lemma_insert_pos(s: Seq<EventView>, t: u64)
    requires
        sorted_by_time(s),
    ensures
        0 <= insert_pos(s, t) <= s.len(),
        forall|i: int| 0 <= i < insert_pos(s, t) ==> s[i].timestamp_us <= t,
        forall|i: int| insert_pos(s, t) <= i < s.len() ==> s[i].timestamp_us > t,
    decreases s.len(),
{
    if s.len() > 0 {
        let p = s.drop_last();
        assert(sorted_by_time(p));
        lemma_insert_pos(p, t);
        if s.last().timestamp_us > t {
            assert(insert_pos(s, t) == insert_pos(p, t));
            assert forall|i: int| 0 <= i < insert_pos(s, t) implies s[i].timestamp_us <= t by {
                assert(s[i] == p[i]);
            }
            assert forall|i: int| insert_pos(s, t) <= i < s.len() implies s[i].timestamp_us > t by {
                if i < s.len() - 1 {
                    assert(s[i] == p[i]);
                }
            }
        } else {
            assert(insert_pos(s, t) == s.len());
            assert forall|i: int| 0 <= i < s.len() implies s[i].timestamp_us <= t by {
                if i < s.len() - 1 {
                    assert(s[i].timestamp_us <= s[s.len() - 1].timestamp_us);
                }
            }
        }
    }
}

/// Loading sorts: the timeline is in non-decreasing timestamp order and holds
/// exactly the events that were read, whatever their order in the file.
pub proof fn lemma_sort_by_time(s: Seq<EventView>)
    ensures
        sorted_by_time(sort_by_time(s)),
        sort_by_time(s).to_multiset() == s.to_multiset(),
        sort_by_time(s).len() == s.len(),
    decreases s.len(),
{
    if s.len() > 0 {
        let p = sort_by_time(s.drop_last());
        let e = s.last();
        lemma_sort_by_time(s.drop_last());
        lemma_insert_pos(p, e.timestamp_us);
        let k = insert_pos(p, e.timestamp_us);
        let r = p.insert(k, e);
        assert forall|i: int, j: int| 0 <= i < j < r.len() implies r[i].timestamp_us
            <= r[j].timestamp_us by {
            if j < k {
            } else if j == k {
            } else if i < k {
                assert(r[j] == p[j - 1]);
            } else if i == k {
                assert(r[j] == p[j - 1]);
            } else {
                assert(r[i] == p[i - 1]);
                assert(r[j] == p[j - 1]);
            }
        }
        to_multiset_insert(p, k, e);
        to_multiset_build(s.drop_last(), e);
        assert(s.drop_last().push(e) =~= s);
    }
}

/// A pause from `t1` to `t2` (as `pause` then `resume` leave the player)
/// delays every later decision by exactly `t2 - t1`: the loop decides at
/// `now + (t2 - t1)` what it would have decided at `now` without the pause,
/// so the gaps between events are kept.
pub proof fn lemma_pause_shifts_schedule(v: PlayerView, run: u64, t1: u64, t2: u64, now: u64)
    requires
        player_wf(v),
        v.state == PlayerState::Playing,
        t1 <= t2,
        v.total_pause_us + (t2 - t1) <= u64::MAX,
        now + (t2 - t1) <= u64::MAX,
    ensures
        ({
            let w = PlayerView {
                pause_start_us: t1,
                total_pause_us: add_pause(v.total_pause_us, t1, t2),
                ..v
            };
            next_step(w, run, (now + (t2 - t1)) as u64).1 == next_step(v, run, now).1
        }),
{
}

/// Once stopped, a playback injects nothing more: every later request of any
/// run gets `Finished` and the cursor stays where it is.
pub proof fn lemma_stopped_player_finishes(v: PlayerView, run: u64, now: u64)
    requires
        v.state == PlayerState::Idle,
    ensures
        next_step(v, run, now) == (v, Action::Finished),
{
}

/// Inserts `e` after every event that is not later than it.
fn insert_sorted(events: &mut Vec<MacroEvent>, e: MacroEvent)
    ensures
        events_view(final(events)@) == insert_by_time(events_view(old(events)@), e@),
{
    let ghost s = events_view(events@);
    let t = e.timestamp_us;
    let mut j: usize = events.len();
    assert(s.take(j as int) =~= s);
    while j > 0 && events[j - 1].timestamp_us > t
        invariant
            j <= events@.len(),
            s == events_view(events@),
            s == events_view(old(events)@),
            insert_pos(s, t) == insert_pos(s.take(j as int), t),
        decreases j,
    {
        assert(s.take(j as int).drop_last() =~= s.take(j - 1));
        j = j - 1;
    }
    assert(s.take(0) =~= Seq::<EventView>::empty());
    events.insert(j, e);
    assert(events_view(events@) =~= s.insert(j as int, e@));
}

impl MacroPlayer {
    pub fn new() -> (r: MacroPlayer)
        ensures
            player_wf(r@),
            r@.events.len() == 0,
            r@.state == PlayerState::Idle,
            r@.position == 0,
            r@.speed == NORMAL_SPEED,
    {
        let r = MacroPlayer {
            events: Vec::new(),
            state: PlayerState::Idle,
            current_position: 0,
            start_us: 0,
            pause_start_us: 0,
            total_pause_us: 0,
            speed: NORMAL_SPEED,
            run_speed: NORMAL_SPEED,
            run_id: 0,
        };
        assert(r@.events =~= Seq::<EventView>::empty());
        r
    }

    /// Replaces the timeline with the events of a text file's contents,
    /// stably sorted by timestamp; lines that hold no event are skipped.
    pub fn load_from_text(&mut self, text: &str) -> (r: usize)
        requires
            player_wf(old(self)@),
        ensures
            player_wf(final(self)@),
            final(self)@ == (PlayerView {
                events: timeline_of(text@),
                state: PlayerState::Idle,
                position: 0,
                ..old(self)@
            }),
            r == timeline_of(text@).len(),
    {
        let v = chars_of(text);
        let spans = split_spans(&v, 0, v.len(), '\n');
        let ghost lines = span_texts(v@, spans@);
        assert(v@.subrange(0, v@.len() as int) =~= text@);
        let mut events: Vec<MacroEvent> = Vec::new();
        let mut i: usize = 0;
        assert(lines.take(0) =~= Seq::<Seq<char>>::empty());
        assert(events_view(events@) =~= Seq::<EventView>::empty());
        while i < spans.len()
            invariant
                i <= spans@.len(),
                v@ == text@,
                spans_within(spans@, 0, v@.len() as int),
                lines == span_texts(v@, spans@),
                events_view(events@) == sort_by_time(decode_all(lines.take(i as int))),
            decreases spans@.len() - i,
        {
            let (a, b) = spans[i];
            assert(spans@[i as int] == (a, b));
            let line = text.substring_char(a, b);
            assert(lines.take(i + 1).drop_last() =~= lines.take(i as int));
            assert(lines.take(i + 1).last() == line@);
            match MacroEvent::from_mcr_line(line) {
                Some(e) => {
                    let ghost p = decode_all(lines.take(i as int));
                    assert(p.push(e@).drop_last() =~= p);
                    insert_sorted(&mut events, e);
                },
                None => {},
            }
            i = i + 1;
        }
        assert(lines.take(i as int) =~= lines);
        proof {
            lemma_sort_by_time(decode_all(lines));
        }
        self.events = events;
        self.current_position = 0;
        self.state = PlayerState::Idle;
        self.events.len()
    }

    /// Sets the speed for later playbacks, in hundredths of normal speed,
    /// clamped to `MIN_SPEED..=MAX_SPEED`.
    pub fn set_speed(&mut self, speed: u32)
        requires
            player_wf(old(self)@),
        ensures
            player_wf(final(self)@),
            final(self)@ == (PlayerView { speed: clamp_speed(speed), ..old(self)@ }),
    {
        self.speed = if speed < MIN_SPEED {
            MIN_SPEED
        } else if speed > MAX_SPEED {
            MAX_SPEED
        } else {
            speed
        };
    }

    /// Begins a playback at time `now_us` and returns the number of the run
    /// that the scheduling loop is to pass to `next_action`. Any earlier run
    /// ends. With an empty timeline nothing happens.
    pub fn start(&mut self, now_us: u64) -> (r: Option<u64>)
        requires
            player_wf(old(self)@),
        ensures
            player_wf(final(self)@),
            old(self)@.events.len() == 0 ==> r is None && final(self)@ == old(self)@,
            old(self)@.events.len() > 0 ==> {
                let id = if old(self)@.run_id == u64::MAX {
                    0
                } else {
                    (old(self)@.run_id + 1) as u64
                };
                &&& r == Some(id)
                &&& final(self)@ == (PlayerView {
                    state: PlayerState::Playing,
                    position: 0,
                    start_us: now_us,
                    pause_start_us: now_us,
                    total_pause_us: 0,
                    run_speed: old(self)@.speed,
                    run_id: id,
                    ..old(self)@
                })
            },
    {
        if self.events.len() == 0 {
            return None;
        }
        self.run_id = if self.run_id == u64::MAX { 0 } else { self.run_id + 1 };
        self.state = PlayerState::Playing;
        self.current_position = 0;
        self.start_us = now_us;
        self.pause_start_us = now_us;
        self.total_pause_us = 0;
        self.run_speed = self.speed;
        Some(self.run_id)
    }

    /// Pauses a playback that is playing.
    pub fn pause(&mut self, now_us: u64)
        requires
            player_wf(old(self)@),
        ensures
            player_wf(final(self)@),
            final(self)@ == if old(self)@.state == PlayerState::Playing {
                PlayerView { state: PlayerState::Paused, pause_start_us: now_us, ..old(self)@ }
            } else {
                old(self)@
            },
    {
        if self.state == PlayerState::Playing {
            self.state = PlayerState::Paused;
            self.pause_start_us = now_us;
        }
    }

    fn close_pause(&mut self, now_us: u64)
        ensures
            final(self)@ == (PlayerView {
                total_pause_us: add_pause(old(self)@.total_pause_us, old(self)@.pause_start_us, now_us),
                ..old(self)@
            }),
    {
        let d: u64 = if now_us > self.pause_start_us { now_us - self.pause_start_us } else { 0 };
        self.total_pause_us = if self.total_pause_us > u64::MAX - d {
            u64::MAX
        } else {
            self.total_pause_us + d
        };
    }

    /// Resumes a paused playback; the time spent paused does not count
    /// towards the events' due times.
    pub fn resume(&mut self, now_us: u64)
        requires
            player_wf(old(self)@),
        ensures
            player_wf(final(self)@),
            final(self)@ == if old(self)@.state == PlayerState::Paused {
                PlayerView {
                    state: PlayerState::Playing,
                    total_pause_us: add_pause(
                        old(self)@.total_pause_us,
                        old(self)@.pause_start_us,
                        now_us,
                    ),
                    ..old(self)@
                }
            } else {
                old(self)@
            },
    {
        if self.state == PlayerState::Paused {
            self.close_pause(now_us);
            self.state = PlayerState::Playing;
        }
    }

    /// Ends the playback: the loop's next request gets `Finished`, so no
    /// further event is injected. The cursor stays where it is.
    pub fn stop(&mut self, now_us: u64)
        requires
            player_wf(old(self)@),
        ensures
            player_wf(final(self)@),
            final(self)@ == if old(self)@.state == PlayerState::Paused {
                PlayerView {
                    state: PlayerState::Idle,
                    total_pause_us: add_pause(
                        old(self)@.total_pause_us,
                        old(self)@.pause_start_us,
                        now_us,
                    ),
                    ..old(self)@
                }
            } else {
                PlayerView { state: PlayerState::Idle, ..old(self)@ }
            },
    {
        if self.state == PlayerState::Paused {
            self.close_pause(now_us);
        }
        self.state = PlayerState::Idle;
    }

    pub fn get_state(&self) -> (r: PlayerState)
        ensures
            r == self@.state,
    {
        self.state
    }

    pub fn get_current_position(&self) -> (r: usize)
        ensures
            r == self@.position,
    {
        self.current_position
    }

    pub fn get_total_events(&self) -> (r: usize)
        ensures
            r == self@.events.len(),
    {
        self.events.len()
    }

    pub fn get_speed(&self) -> (r: u32)
        ensures
            r == self@.speed,
    {
        self.speed
    }

    /// The event at index `i` of the timeline.
    pub fn event_at(&self, i: usize) -> (r: &MacroEvent)
        requires
            i < self@.events.len(),
        ensures
            r@ == self@.events[i as int],
    {
        &self.events[i]
    }

    /// The scheduling loop's decision for run `run` at time `now_us`: wait,
    /// inject the next event, idle while paused, or finish.
    pub fn next_action(&mut self, run: u64, now_us: u64) -> (r: Action)
        requires
            player_wf(old(self)@),
        ensures
            player_wf(final(self)@),
            (final(self)@, r) == next_step(old(self)@, run, now_us),
    {
        if run != self.run_id || self.state == PlayerState::Idle {
            return Action::Finished;
        }
        if self.state == PlayerState::Paused {
            return Action::Suspend;
        }
        if self.current_position >= self.events.len() {
            self.state = PlayerState::Idle;
            return Action::Finished;
        }
        let i = self.current_position;
        let target: u128 = (self.events[i].timestamp_us as u128 * 100) / (self.run_speed as u128);
        let since_start: u128 = if now_us > self.start_us { (now_us - self.start_us) as u128 } else { 0 };
        let elapsed: u128 = if since_start > self.total_pause_us as u128 {
            since_start - self.total_pause_us as u128
        } else {
            0
        };
        if target > elapsed {
            let remaining = target - elapsed;
            let w: u64 = if remaining < WAIT_SLICE_US as u128 { remaining as u64 } else { WAIT_SLICE_US };
            Action::Wait(w)
        } else {
            self.current_position = i + 1;
            Action::Execute(i)
        }
    }
}

/// The synthetic input that replays an event, if it carries what that needs.
/// A scroll replays one wheel step in the direction of its `dy`, or of its
/// raw delta when it has no `dy`.
pub open spec fn command_spec(e: EventView) -> Option<InjectionCommandView> {
    let d = e.data;
    match e.kind {
        EventType::KeyDown | EventType::KeyUp => match d.key_name {
            Some(k) => Some(InjectionCommandView::KeyEvent { key_name: k, down: e.kind == EventType::KeyDown }),
            None => None,
        },
        EventType::MouseMove => if d.x is Some && d.y is Some {
            Some(InjectionCommandView::MoveCursor { x: d.x->0, y: d.y->0 })
        } else {
            None
        },
        EventType::MouseDown | EventType::MouseUp => if d.x is Some && d.y is Some && d.button is Some {
            Some(
                InjectionCommandView::ButtonEvent {
                    x: d.x->0,
                    y: d.y->0,
                    button: d.button->0,
                    down: e.kind == EventType::MouseDown,
                },
            )
        } else {
            None
        },
        EventType::MouseScroll => if d.x is Some && d.y is Some && (d.dy is Some || d.delta is Some) {
            let step = if d.dy is Some { d.dy->0 } else { scroll_step(d.delta->0) };
            Some(InjectionCommandView::ScrollEvent { x: d.x->0, y: d.y->0, step })
        } else {
            None
        },
    }
}

pub enum InjectionCommandView {
    MoveCursor { x: i64, y: i64 },
    ButtonEvent { x: i64, y: i64, button: u64, down: bool },
    KeyEvent { key_name: Seq<char>, down: bool },
    ScrollEvent { x: i64, y: i64, step: i64 },
}

impl View for InjectionCommand {
    type V = InjectionCommandView;

    open spec fn view(&self) -> InjectionCommandView {
        match self {
            InjectionCommand::MoveCursor { x, y } => InjectionCommandView::MoveCursor { x: *x, y: *y },
            InjectionCommand::ButtonEvent { x, y, button, down } => InjectionCommandView::ButtonEvent {
                x: *x,
                y: *y,
                button: *button,
                down: *down,
            },
            InjectionCommand::KeyEvent { key_name, down } => InjectionCommandView::KeyEvent {
                key_name: key_name@,
                down: *down,
            },
            InjectionCommand::ScrollEvent { x, y, step } => InjectionCommandView::ScrollEvent {
                x: *x,
                y: *y,
                step: *step,
            },
        }
    }
}

/// The synthetic input that replays `e`, if any.
pub fn injection_command(e: &MacroEvent) -> (r: Option<InjectionCommand>)
    ensures
        match r {
            Some(c) => command_spec(e@) == Some(c@),
            None => command_spec(e@) is None,
        },
{
    let d = &e.data;
    match e.event_type {
        EventType::KeyDown | EventType::KeyUp => match &d.key_name {
            Some(k) => Some(
                InjectionCommand::KeyEvent {
                    key_name: k.clone(),
                    down: e.event_type == EventType::KeyDown,
                },
            ),
            None => None,
        },
        EventType::MouseMove => match (d.x, d.y) {
            (Some(x), Some(y)) => Some(InjectionCommand::MoveCursor { x, y }),
            _ => None,
        },
        EventType::MouseDown | EventType::MouseUp => match (d.x, d.y, d.button) {
            (Some(x), Some(y), Some(button)) => Some(
                InjectionCommand::ButtonEvent {
                    x,
                    y,
                    button,
                    down: e.event_type == EventType::MouseDown,
                },
            ),
            _ => None,
        },
        EventType::MouseScroll => {
            let step = match (d.dy, d.delta) {
                (Some(s), _) => Some(s),
                (None, Some(delta)) => Some(if delta > 0 { 1i64 } else { -1i64 }),
                (None, None) => None,
            };
            match (d.x, d.y, step) {
                (Some(x), Some(y), Some(step)) => Some(InjectionCommand::ScrollEvent { x, y, step }),
                _ => None,
            }
        },
    }
}

} // verus!
