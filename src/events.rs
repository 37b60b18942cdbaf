use vstd::prelude::*;
use crate::text::{
    all_digits, all_digits_span, chars_of, digits_value, find_char, fixed_text, index_of,
    int_text, is_space, join_fields, lemma_join_push, lemma_pow10_mono, lemma_pow10_six,
    lemma_trim_end_take, lemma_trim_start_skip, lemma_value_bound, nat_text, parse_digits,
    parse_int, parse_int_span, pow10, span_eq, split_fields, split_on, trim, trim_end, trim_start,
    write_fixed, write_int, write_nat, write_sep,
};

verus! {

/// The kinds of input event a macro can hold.
#[derive(Debug, Clone, Copy, PartialEq, Eq, Structural)]
pub enum EventType {
    KeyDown,
    KeyUp,
    MouseMove,
    MouseDown,
    MouseUp,
    MouseScroll,
}

/// The short text code of each kind.
pub open spec fn code_of(k: EventType) -> Seq<char> {
    match k {
        EventType::KeyDown => "KDOWN"@,
        EventType::KeyUp => "KUP"@,
        EventType::MouseMove => "MMOVE"@,
        EventType::MouseDown => "MDOWN"@,
        EventType::MouseUp => "MUP"@,
        EventType::MouseScroll => "MSCROLL"@,
    }
}

/// The kind whose short code is `s`, if any.
pub open spec fn kind_from_code(s: Seq<char>) -> Option<EventType> {
    if s == "KDOWN"@ {
        Some(EventType::KeyDown)
    } else if s == "KUP"@ {
        Some(EventType::KeyUp)
    } else if s == "MMOVE"@ {
        Some(EventType::MouseMove)
    } else if s == "MDOWN"@ {
        Some(EventType::MouseDown)
    } else if s == "MUP"@ {
        Some(EventType::MouseUp)
    } else if s == "MSCROLL"@ {
        Some(EventType::MouseScroll)
    } else {
        None
    }
}

pub proof fn lemma_code_round_trip(k: EventType)
    ensures
        kind_from_code(code_of(k)) == Some(k),
        code_of(k).len() > 0,
        !is_space(code_of(k)[0]),
        !is_space(code_of(k).last()),
        code_of(k)[0] != '#',
        forall|i: int| 0 <= i < code_of(k).len() ==> #[trigger] code_of(k)[i] != ';',
{
    reveal_strlit("KDOWN");
    reveal_strlit("KUP");
    reveal_strlit("MMOVE");
    reveal_strlit("MDOWN");
    reveal_strlit("MUP");
    reveal_strlit("MSCROLL");
    assert("KDOWN"@.len() != "KUP"@.len());
    assert("KDOWN"@[0] != "MMOVE"@[0]);
    assert("KDOWN"@[0] != "MDOWN"@[0]);
    assert("KUP"@[0] != "MUP"@[0]);
    assert("KDOWN"@ != "MUP"@);
    assert("KDOWN"@ != "MSCROLL"@);
    assert("KUP"@ != "MMOVE"@);
    assert("KUP"@ != "MDOWN"@);
    assert("KUP"@ != "MUP"@);
    assert("KUP"@ != "MSCROLL"@);
    assert("MMOVE"@[1] != "MDOWN"@[1]);
    assert("MMOVE"@ != "MUP"@);
    assert("MMOVE"@ != "MSCROLL"@);
    assert("MDOWN"@ != "MUP"@);
    assert("MDOWN"@ != "MSCROLL"@);
    assert("MUP"@.len() != "MSCROLL"@.len());
}

impl EventType {
    pub fn code(&self) -> (r: &'static str)
        ensures
            r@ == code_of(*self),
    {
        match self {
            EventType::KeyDown => "KDOWN",
            EventType::KeyUp => "KUP",
            EventType::MouseMove => "MMOVE",
            EventType::MouseDown => "MDOWN",
            EventType::MouseUp => "MUP",
            EventType::MouseScroll => "MSCROLL",
        }
    }
}


/// The attributes an event may carry. Each known attribute has its own field;
/// attributes under any other name read from a file are kept, in order of
/// first appearance, in `extra`.
#[derive(Debug, Clone)]
pub struct EventData {
    pub key_name: Option<String>,
    pub x: Option<i64>,
    pub y: Option<i64>,
    pub button: Option<u64>,
    pub delta: Option<i64>,
    pub dx: Option<i64>,
    pub dy: Option<i64>,
    pub extra: Vec<(String, String)>,
}

/// The mathematical value of an `EventData`.
pub struct DataView {
    pub key_name: Option<Seq<char>>,
    pub x: Option<i64>,
    pub y: Option<i64>,
    pub button: Option<u64>,
    pub delta: Option<i64>,
    pub dx: Option<i64>,
    pub dy: Option<i64>,
    pub extra: Seq<(Seq<char>, Seq<char>)>,
}

pub open spec fn opt_str_view(o: Option<String>) -> Option<Seq<char>> {
    match o {
        Some(s) => Some(s@),
        None => None,
    }
}

pub open spec fn pair_view(p: (String, String)) -> (Seq<char>, Seq<char>) {
    (p.0@, p.1@)
}

impl View for EventData {
    type V = DataView;

    open spec fn view(&self) -> DataView {
        DataView {
            key_name: opt_str_view(self.key_name),
            x: self.x,
            y: self.y,
            button: self.button,
            delta: self.delta,
            dx: self.dx,
            dy: self.dy,
            extra: self.extra@.map_values(|p: (String, String)| pair_view(p)),
        }
    }
}

pub open spec fn empty_data() -> DataView {
    DataView {
        key_name: None,
        x: None,
        y: None,
        button: None,
        delta: None,
        dx: None,
        dy: None,
        extra: Seq::empty(),
    }
}

impl EventData {
    pub fn new() -> (r: EventData)
        ensures
            r@ == empty_data(),
    {
        let r = EventData {
            key_name: None,
            x: None,
            y: None,
            button: None,
            delta: None,
            dx: None,
            dy: None,
            extra: Vec::new(),
        };
        assert(r@.extra =~= Seq::<(Seq<char>, Seq<char>)>::empty());
        r
    }
}

/// One recorded input event. The timestamp is in microseconds from the start
/// of the timeline.
#[derive(Debug, Clone)]
pub struct MacroEvent {
    pub timestamp_us: u64,
    pub event_type: EventType,
    pub data: EventData,
}

/// The mathematical value of a `MacroEvent`.
pub struct EventView {
    pub timestamp_us: u64,
    pub kind: EventType,
    pub data: DataView,
}

impl View for MacroEvent {
    type V = EventView;

    open spec fn view(&self) -> EventView {
        EventView { timestamp_us: self.timestamp_us, kind: self.event_type, data: self.data@ }
    }
}

pub open spec fn opt_event_view(o: Option<MacroEvent>) -> Option<EventView> {
    match o {
        Some(e) => Some(e@),
        None => None,
    }
}

/// Every attribute present is one that the event's kind may carry. A scroll
/// read back from a file carries `dx` and `dy` in place of its raw `delta`.
pub open spec fn valid_event(e: EventView) -> bool {
    let d = e.data;
    &&& d.extra.len() == 0
    &&& match e.kind {
        EventType::KeyDown | EventType::KeyUp => d.x is None && d.y is None && d.button is None
            && d.delta is None && d.dx is None && d.dy is None,
        EventType::MouseMove => d.key_name is None && d.button is None && d.delta is None
            && d.dx is None && d.dy is None,
        EventType::MouseDown | EventType::MouseUp => d.key_name is None && d.delta is None
            && d.dx is None && d.dy is None,
        EventType::MouseScroll => d.key_name is None && d.button is None,
    }
}

/// A key name the text format can carry: no field separator, and no trailing
/// white space (a line is trimmed before it is read).
pub open spec fn storable_key_name(k: Seq<char>) -> bool {
    &&& forall|i: int| 0 <= i < k.len() ==> #[trigger] k[i] != ';'
    &&& k.len() > 0 ==> !is_space(k.last())
}

/// The attributes that the text format writes for this kind are either all
/// present or all absent, and a key name is storable.
pub open spec fn complete_event(e: EventView) -> bool {
    let d = e.data;
    match e.kind {
        EventType::KeyDown | EventType::KeyUp => d.key_name is Some ==> storable_key_name(
            d.key_name->0,
        ),
        EventType::MouseMove => d.x is Some <==> d.y is Some,
        EventType::MouseDown | EventType::MouseUp => (d.x is Some <==> d.y is Some) && (d.x is Some
            <==> d.button is Some),
        EventType::MouseScroll => (d.x is Some <==> d.y is Some) && (d.x is Some <==> d.delta is Some),
    }
}

pub open spec fn button_name(b: u64) -> Seq<char> {
    if b == 1 {
        "left"@
    } else if b == 2 {
        "right"@
    } else if b == 3 {
        "middle"@
    } else {
        "unknown"@
    }
}

pub open spec fn button_code(s: Seq<char>) -> u64 {
    if s == "left"@ {
        1
    } else if s == "right"@ {
        2
    } else if s == "middle"@ {
        3
    } else {
        0
    }
}

/// The scroll step written for a raw wheel delta: only its sign survives.
pub open spec fn scroll_step(delta: i64) -> i64 {
    if delta > 0 {
        1i64
    } else {
        -1i64
    }
}

pub open spec fn kv(k: Seq<char>, v: Seq<char>) -> Seq<char> {
    k + "="@ + v
}

/// The timestamp as seconds with exactly six fractional digits.
pub open spec fn timestamp_text(t: u64) -> Seq<char> {
    nat_text(t as nat / 1_000_000) + "."@ + fixed_text(t as nat % 1_000_000, 6)
}

/// The `key=value` fields written for an event, in their fixed order.
pub open spec fn attr_fields(e: EventView) -> Seq<Seq<char>> {
    let d = e.data;
    match e.kind {
        EventType::KeyDown | EventType::KeyUp => match d.key_name {
            Some(k) => seq![kv("char"@, k)],
            None => Seq::empty(),
        },
        EventType::MouseMove => if d.x is Some && d.y is Some {
            seq![kv("x"@, int_text(d.x->0 as int)), kv("y"@, int_text(d.y->0 as int))]
        } else {
            Seq::empty()
        },
        EventType::MouseDown | EventType::MouseUp => if d.x is Some && d.y is Some
            && d.button is Some {
            seq![
                kv("button"@, button_name(d.button->0)),
                kv("x"@, int_text(d.x->0 as int)),
                kv("y"@, int_text(d.y->0 as int)),
            ]
        } else {
            Seq::empty()
        },
        EventType::MouseScroll => if d.x is Some && d.y is Some && d.delta is Some {
            seq![
                kv("dx"@, int_text(0)),
                kv("dy"@, int_text(scroll_step(d.delta->0) as int)),
                kv("x"@, int_text(d.x->0 as int)),
                kv("y"@, int_text(d.y->0 as int)),
            ]
        } else {
            Seq::empty()
        },
    }
}

pub open spec fn event_fields(e: EventView) -> Seq<Seq<char>> {
    seq![timestamp_text(e.timestamp_us), code_of(e.kind)] + attr_fields(e)
}

/// The text line of an event.
pub open spec fn encode(e: EventView) -> Seq<char> {
    join_fields(event_fields(e))
}

/// The microseconds in a fractional part: its first six digits, padded.
pub open spec fn frac_micros(f: Seq<char>) -> nat {
    if f.len() >= 6 {
        digits_value(f.take(6))
    } else {
        digits_value(f) * pow10((6 - f.len()) as nat)
    }
}

/// Reads seconds written as digits with an optional fractional part, to the
/// microsecond (further digits are cut off).
pub open spec fn parse_timestamp(s: Seq<char>) -> Option<u64> {
    let p = index_of(s, '.');
    let ip = if p < 0 { s } else { s.take(p) };
    let fp = if p < 0 { Seq::empty() } else { s.skip(p + 1) };
    let total = digits_value(ip) * 1_000_000 + frac_micros(fp);
    if ip.len() + fp.len() == 0 || !all_digits(ip) || !all_digits(fp) || total > u64::MAX {
        None
    } else {
        Some(total as u64)
    }
}

/// Position of the first entry under key `k`, or -1.
pub open spec fn key_pos(s: Seq<(Seq<char>, Seq<char>)>, k: Seq<char>) -> int
    decreases s.len(),
{
    if s.len() == 0 {
        -1
    } else if key_pos(s.drop_last(), k) >= 0 {
        key_pos(s.drop_last(), k)
    } else if s.last().0 == k {
        s.len() - 1
    } else {
        -1
    }
}

/// Sets key `k` to `v`: in place when it is there, else at the end.
pub open spec fn extra_set(s: Seq<(Seq<char>, Seq<char>)>, k: Seq<char>, v: Seq<char>) -> Seq<
    (Seq<char>, Seq<char>),
> {
    if key_pos(s, k) >= 0 {
        s.update(key_pos(s, k), (k, v))
    } else {
        s.push((k, v))
    }
}

pub open spec fn with_int(d: DataView, k: Seq<char>, n: i64) -> DataView {
    if k == "x"@ {
        DataView { x: Some(n), ..d }
    } else if k == "y"@ {
        DataView { y: Some(n), ..d }
    } else if k == "dx"@ {
        DataView { dx: Some(n), ..d }
    } else {
        DataView { dy: Some(n), ..d }
    }
}

pub open spec fn is_int_key(k: Seq<char>) -> bool {
    k == "x"@ || k == "y"@ || k == "dx"@ || k == "dy"@
}

/// The effect of one `key=value` field on the attributes read so far.
pub open spec fn apply_field(d: DataView, f: Seq<char>) -> DataView {
    let p = index_of(f, '=');
    if p < 0 {
        d
    } else {
        let k = f.take(p);
        let v = f.skip(p + 1);
        if k == "char"@ {
            DataView { key_name: Some(v), ..d }
        } else if is_int_key(k) {
            match parse_int(v) {
                Some(n) => with_int(d, k, n),
                None => d,
            }
        } else if k == "button"@ {
            DataView { button: Some(button_code(v)), ..d }
        } else {
            DataView { extra: extra_set(d.extra, k, v), ..d }
        }
    }
}

pub open spec fn apply_fields(d: DataView, fs: Seq<Seq<char>>) -> DataView
    decreases fs.len(),
{
    if fs.len() == 0 {
        d
    } else {
        apply_field(apply_fields(d, fs.drop_last()), fs.last())
    }
}

/// The event a text line holds, if any.
pub open spec fn decode(line: Seq<char>) -> Option<EventView> {
    let t = trim(line);
    if t.len() == 0 || t[0] == '#' {
        None
    } else {
        let fs = split_fields(t);
        if fs.len() < 2 {
            None
        } else {
            match parse_timestamp(fs[0]) {
                None => None,
                Some(ts) => match kind_from_code(fs[1]) {
                    None => None,
                    Some(k) => Some(
                        EventView {
                            timestamp_us: ts,
                            kind: k,
                            data: apply_fields(empty_data(), fs.skip(2)),
                        },
                    ),
                },
            }
        }
    }
}


/// Appends `;key=` followed by the decimal text of `n`.
fn write_int_field(out: &mut String, key: &str, n: i64)
    ensures
        final(out)@ == old(out)@ + seq![';'] + kv(key@, int_text(n as int)),
{
    write_sep(out);
    out.append(key);
    out.append("=");
    write_int(out, n);
    assert(final(out)@ =~= old(out)@ + seq![';'] + kv(key@, int_text(n as int)));
}

/// Appends `;key=value`.
fn write_str_field(out: &mut String, key: &str, value: &str)
    ensures
        final(out)@ == old(out)@ + seq![';'] + kv(key@, value@),
{
    write_sep(out);
    out.append(key);
    out.append("=");
    out.append(value);
    assert(final(out)@ =~= old(out)@ + seq![';'] + kv(key@, value@));
}

fn button_text(b: u64) -> (r: &'static str)
    ensures
        r@ == button_name(b),
{
    if b == 1 {
        "left"
    } else if b == 2 {
        "right"
    } else if b == 3 {
        "middle"
    } else {
        "unknown"
    }
}

/// Appends the timestamp as seconds with six fractional digits.
fn write_timestamp(out: &mut String, t: u64)
    ensures
        final(out)@ == old(out)@ + timestamp_text(t),
{
    write_nat(out, t / 1_000_000);
    out.append(".");
    write_fixed(out, t % 1_000_000, 6);
    assert(final(out)@ =~= old(out)@ + timestamp_text(t));
}

fn is_space_char(c: char) -> (r: bool)
    ensures
        r == is_space(c),
{
    c == ' ' || c == '\t' || c == '\n' || c == '\r' || c == '\x0B' || c == '\x0C'
}

/// The bounds of `v` without its leading and trailing white space.
fn trim_bounds(v: &Vec<char>) -> (r: (usize, usize))
    ensures
        r.0 <= r.1 <= v@.len(),
        trim(v@) == v@.subrange(r.0 as int, r.1 as int),
{
    let n = v.len();
    let mut a: usize = 0;
    while a < n && is_space_char(v[a])
        invariant
            a <= n == v@.len(),
            forall|j: int| 0 <= j < a ==> is_space(v@[j]),
        decreases n - a,
    {
        a = a + 1;
    }
    let mut b: usize = n;
    while b > a && is_space_char(v[b - 1])
        invariant
            a <= b <= n == v@.len(),
            forall|j: int| b <= j < n ==> is_space(v@[j]),
        decreases b - a,
    {
        b = b - 1;
    }
    proof {
        let s = v@;
        lemma_trim_start_skip(s, a as int);
        let u = s.skip(a as int);
        assert(trim_start(u) == u);
        lemma_trim_end_take(u, (b - a) as int);
        assert(u.take((b - a) as int) =~= s.subrange(a as int, b as int));
        let w = s.subrange(a as int, b as int);
        assert(trim_end(w) == w);
    }
    (a, b)
}

pub open spec fn span_texts(v: Seq<char>, sp: Seq<(usize, usize)>) -> Seq<Seq<char>> {
    sp.map_values(|p: (usize, usize)| v.subrange(p.0 as int, p.1 as int))
}

pub open spec fn spans_within(sp: Seq<(usize, usize)>, a: int, b: int) -> bool {
    forall|i: int| 0 <= i < sp.len() ==> a <= (#[trigger] sp[i]).0 <= sp[i].1 <= b
}

/// The bounds of the `sep`-separated pieces of `v[a..b]`.
pub fn split_spans(v: &Vec<char>, a: usize, b: usize, sep: char) -> (r: Vec<(usize, usize)>)
    requires
        a <= b <= v@.len(),
    ensures
        spans_within(r@, a as int, b as int),
        span_texts(v@, r@) == split_on(v@.subrange(a as int, b as int), sep),
{
    let mut done: Vec<(usize, usize)> = Vec::new();
    let mut start: usize = a;
    let mut i: usize = a;
    assert(v@.subrange(a as int, a as int) =~= Seq::<char>::empty());
    assert(span_texts(v@, done@) =~= Seq::<Seq<char>>::empty());
    assert(split_on(v@.subrange(a as int, a as int), sep) =~= span_texts(v@, done@).push(
        v@.subrange(start as int, a as int),
    ));
    while i < b
        invariant
            a <= start <= i <= b <= v@.len(),
            spans_within(done@, a as int, start as int),
            split_on(v@.subrange(a as int, i as int), sep) == span_texts(v@, done@).push(
                v@.subrange(start as int, i as int),
            ),
        decreases b - i,
    {
        let ghost prev = span_texts(v@, done@);
        assert(v@.subrange(a as int, i + 1).drop_last() =~= v@.subrange(a as int, i as int));
        assert(v@.subrange(a as int, i + 1).last() == v@[i as int]);
        if v[i] == sep {
            let ghost old_done = done@;
            let ghost old_start = start;
            done.push((start, i));
            start = i + 1;
            assert(done@ == old_done.push((old_start, i)));
            assert(span_texts(v@, done@) =~= prev.push(v@.subrange(old_start as int, i as int)));
            assert(v@.subrange(start as int, i + 1) =~= Seq::<char>::empty());
        } else {
            assert(v@.subrange(start as int, i + 1) =~= v@.subrange(start as int, i as int).push(v@[i as int]));
        }
        i = i + 1;
        assert(split_on(v@.subrange(a as int, i as int), sep) =~= span_texts(v@, done@).push(
            v@.subrange(start as int, i as int),
        ));
    }
    let ghost prev = span_texts(v@, done@);
    let ghost old_done = done@;
    done.push((start, b));
    assert(done@ == old_done.push((start, b)));
    assert(span_texts(v@, done@) =~= prev.push(v@.subrange(start as int, b as int)));
    done
}

/// Reads a timestamp from `v[a..b]`.
fn parse_timestamp_span(v: &Vec<char>, a: usize, b: usize) -> (r: Option<u64>)
    requires
        a <= b <= v@.len(),
    ensures
        r == parse_timestamp(v@.subrange(a as int, b as int)),
{
    let ghost s = v@.subrange(a as int, b as int);
    let p = find_char(v, a, b, '.');
    let ia = a;
    let ib = p;
    let fa: usize = if p < b { p + 1 } else { b };
    let fb = b;
    proof {
        lemma_pow10_six();
        if p < b {
            assert(s.take(p - a) =~= v@.subrange(a as int, p as int));
            assert(s.skip(p - a + 1) =~= v@.subrange(p + 1, b as int));
        } else {
            assert(s =~= v@.subrange(a as int, p as int));
            assert(v@.subrange(b as int, b as int) =~= Seq::<char>::empty());
        }
    }
    let ghost ip = v@.subrange(ia as int, ib as int);
    let ghost fp = v@.subrange(fa as int, fb as int);
    if ib - ia + (fb - fa) == 0 {
        return None;
    }
    let secs = match parse_digits(v, ia, ib, 18446744073710) {
        Some(n) => n,
        None => {
            return None;
        },
    };
    let fe: usize = if fb - fa > 6 { fa + 6 } else { fb };
    if !all_digits_span(v, fa, fb) {
        return None;
    }
    proof {
        assert(all_digits(v@.subrange(fa as int, fe as int))) by {
            assert forall|j: int| 0 <= j < fe - fa implies crate::text::is_digit(#[trigger] v@.subrange(fa as int, fe as int)[j]) by {
                assert(v@.subrange(fa as int, fe as int)[j] == fp[j]);
            }
        }
        lemma_value_bound(v@.subrange(fa as int, fe as int));
        lemma_pow10_mono((fe - fa) as nat, 6);
    }
    let lead = match parse_digits(v, fa, fe, 1_000_000) {
        Some(n) => n,
        None => {
            return None;
        },
    };
    let ghost len = (fe - fa) as nat;
    let mut frac: u128 = lead;
    let mut k: usize = fe - fa;
    assert(pow10(0) == 1);
    assert(lead * pow10(0) == lead);
    while k < 6
        invariant
            len <= k <= 6,
            frac == lead * pow10((k - len) as nat),
            frac < pow10(k as nat),
            pow10(6) == 1_000_000,
        decreases 6 - k,
    {
        proof {
            let q = pow10((k - len) as nat);
            assert(pow10((k + 1 - len) as nat) == 10 * q);
            assert(lead * (10 * q) == (lead * q) * 10) by (nonlinear_arith);
            lemma_pow10_mono((k + 1) as nat, 6);
        }
        frac = frac * 10;
        k = k + 1;
    }
    proof {
        if fp.len() >= 6 {
            assert(fp.take(6) =~= v@.subrange(fa as int, fe as int));
        } else {
            assert(fp =~= v@.subrange(fa as int, fe as int));
        }
    }
    assert(frac == frac_micros(fp));
    assert(secs == digits_value(ip));
    assert(all_digits(ip) && all_digits(fp));
    let total: u128 = secs * 1_000_000 + frac;
    if total > 0xFFFF_FFFF_FFFF_FFFF {
        return None;
    }
    Some(total as u64)
}

/// The kind whose code is spelled by `v[a..b]`.
fn kind_from_span(v: &Vec<char>, a: usize, b: usize) -> (r: Option<EventType>)
    requires
        a <= b <= v@.len(),
    ensures
        r == kind_from_code(v@.subrange(a as int, b as int)),
{
    if span_eq(v, a, b, "KDOWN") {
        Some(EventType::KeyDown)
    } else if span_eq(v, a, b, "KUP") {
        Some(EventType::KeyUp)
    } else if span_eq(v, a, b, "MMOVE") {
        Some(EventType::MouseMove)
    } else if span_eq(v, a, b, "MDOWN") {
        Some(EventType::MouseDown)
    } else if span_eq(v, a, b, "MUP") {
        Some(EventType::MouseUp)
    } else if span_eq(v, a, b, "MSCROLL") {
        Some(EventType::MouseScroll)
    } else {
        None
    }
}

impl EventType {
    /// The kind whose short code is `s`, if any.
    pub fn from_str(s: &str) -> (r: Option<EventType>)
        ensures
            r == kind_from_code(s@),
    {
        let v = chars_of(s);
        assert(v@.subrange(0, v@.len() as int) =~= s@);
        kind_from_span(&v, 0, v.len())
    }
}

fn button_from_span(v: &Vec<char>, a: usize, b: usize) -> (r: u64)
    requires
        a <= b <= v@.len(),
    ensures
        r == button_code(v@.subrange(a as int, b as int)),
{
    if span_eq(v, a, b, "left") {
        1
    } else if span_eq(v, a, b, "right") {
        2
    } else if span_eq(v, a, b, "middle") {
        3
    } else {
        0
    }
}

pub open spec fn extra_view(x: Seq<(String, String)>) -> Seq<(Seq<char>, Seq<char>)> {
    x.map_values(|p: (String, String)| pair_view(p))
}

proof fn lemma_key_pos_absent(s: Seq<(Seq<char>, Seq<char>)>, k: Seq<char>)
    requires
        forall|j: int| 0 <= j < s.len() ==> s[j].0 != k,
    ensures
        key_pos(s, k) == -1,
    decreases s.len(),
{
    if s.len() > 0 {
        lemma_key_pos_absent(s.drop_last(), k);
    }
}

proof fn lemma_key_pos_found(s: Seq<(Seq<char>, Seq<char>)>, k: Seq<char>, i: int)
    requires
        0 <= i < s.len(),
        s[i].0 == k,
        forall|j: int| 0 <= j < i ==> s[j].0 != k,
    ensures
        key_pos(s, k) == i,
    decreases s.len(),
{
    if s.len() > i + 1 {
        lemma_key_pos_found(s.drop_last(), k, i);
    } else {
        lemma_key_pos_absent(s.drop_last(), k);
    }
}

/// Sets the attribute `k` among the others to `val`.
fn set_extra(extra: &mut Vec<(String, String)>, k: String, val: String)
    ensures
        extra_view(final(extra)@) == extra_set(extra_view(old(extra)@), k@, val@),
{
    let ghost s = extra_view(extra@);
    let mut i: usize = 0;
    while i < extra.len()
        invariant
            i <= extra@.len(),
            s == extra_view(extra@),
            s == extra_view(old(extra)@),
            forall|j: int| 0 <= j < i ==> s[j].0 != k@,
        decreases extra@.len() - i,
    {
        if extra[i].0 == k {
            proof {
                lemma_key_pos_found(s, k@, i as int);
            }
            extra.set(i, (k, val));
            assert(extra_view(extra@) =~= extra_set(s, k@, val@));
            return;
        }
        i = i + 1;
    }
    proof {
        lemma_key_pos_absent(s, k@);
    }
    extra.push((k, val));
    assert(extra_view(extra@) =~= extra_set(s, k@, val@));
}

/// Applies the field `v[a..b]` (a slice of `line`) to the attributes.
fn apply_field_span(d: &mut EventData, line: &str, v: &Vec<char>, a: usize, b: usize)
    requires
        v@ == line@,
        a <= b <= v@.len(),
    ensures
        final(d)@ == apply_field(old(d)@, v@.subrange(a as int, b as int)),
{
    let ghost f = v@.subrange(a as int, b as int);
    let p = find_char(v, a, b, '=');
    if p == b {
        return;
    }
    assert(f.take(p - a) =~= v@.subrange(a as int, p as int));
    assert(f.skip(p - a + 1) =~= v@.subrange(p + 1, b as int));
    if span_eq(v, a, p, "char") {
        d.key_name = Some(String::from_str(line.substring_char(p + 1, b)));
    } else if span_eq(v, a, p, "x") || span_eq(v, a, p, "y") || span_eq(v, a, p, "dx")
        || span_eq(v, a, p, "dy") {
        match parse_int_span(v, p + 1, b) {
            Some(n) => {
                if span_eq(v, a, p, "x") {
                    d.x = Some(n);
                } else if span_eq(v, a, p, "y") {
                    d.y = Some(n);
                } else if span_eq(v, a, p, "dx") {
                    d.dx = Some(n);
                } else {
                    d.dy = Some(n);
                }
            },
            None => {},
        }
    } else if span_eq(v, a, p, "button") {
        d.button = Some(button_from_span(v, p + 1, b));
    } else {
        let key = String::from_str(line.substring_char(a, p));
        let val = String::from_str(line.substring_char(p + 1, b));
        set_extra(&mut d.extra, key, val);
    }
}

pub open spec fn position_text(x: i64, y: i64) -> Seq<char> {
    "("@ + int_text(x as int) + ", "@ + int_text(y as int) + ")"@
}

pub open spec fn button_label(b: Option<u64>) -> Seq<char> {
    match b {
        Some(1) => "Left"@,
        Some(2) => "Right"@,
        Some(3) => "Middle"@,
        _ => "Unknown"@,
    }
}

/// `title`, followed by `: (x, y)` when both coordinates are present.
pub open spec fn with_position(title: Seq<char>, d: DataView) -> Seq<char> {
    if d.x is Some && d.y is Some {
        title + ": "@ + position_text(d.x->0, d.y->0)
    } else {
        title
    }
}

/// The one-line human-readable summary of an event.
pub open spec fn describe(e: EventView) -> Seq<char> {
    let d = e.data;
    match e.kind {
        EventType::KeyDown => match d.key_name {
            Some(k) => "Key Down: "@ + k,
            None => "Key Down"@,
        },
        EventType::KeyUp => match d.key_name {
            Some(k) => "Key Up: "@ + k,
            None => "Key Up"@,
        },
        EventType::MouseMove => with_position("Mouse Move"@, d),
        EventType::MouseDown => with_position(button_label(d.button) + " Click Down"@, d),
        EventType::MouseUp => with_position(button_label(d.button) + " Click Up"@, d),
        EventType::MouseScroll => {
            let up = match d.delta {
                Some(n) => n > 0,
                None => false,
            };
            with_position("Scroll "@ + (if up { "Up"@ } else { "Down"@ }), d)
        },
    }
}

fn button_label_text(b: Option<u64>) -> (r: &'static str)
    ensures
        r@ == button_label(b),
{
    match b {
        Some(1) => "Left",
        Some(2) => "Right",
        Some(3) => "Middle",
        _ => "Unknown",
    }
}

/// Appends `: (x, y)` when both coordinates are present.
fn write_position(out: &mut String, d: &EventData)
    ensures
        final(out)@ == with_position(old(out)@, d@),
{
    if let (Some(x), Some(y)) = (d.x, d.y) {
        out.append(": ");
        out.append("(");
        write_int(out, x);
        out.append(", ");
        write_int(out, y);
        out.append(")");
        assert(final(out)@ =~= with_position(old(out)@, d@));
    }
}

impl MacroEvent {
    /// A one-line summary of the event for display.
    pub fn get_description(&self) -> (r: String)
        ensures
            r@ == describe(self@),
    {
        let d = &self.data;
        let mut out = String::new();
        match self.event_type {
            EventType::KeyDown | EventType::KeyUp => {
                if self.event_type == EventType::KeyDown {
                    out.append("Key Down");
                } else {
                    out.append("Key Up");
                }
                if let Some(k) = &d.key_name {
                    out.append(": ");
                    out.append(k.as_str());
                }
            },
            EventType::MouseMove => {
                out.append("Mouse Move");
                write_position(&mut out, d);
            },
            EventType::MouseDown | EventType::MouseUp => {
                out.append(button_label_text(d.button));
                if self.event_type == EventType::MouseDown {
                    out.append(" Click Down");
                } else {
                    out.append(" Click Up");
                }
                write_position(&mut out, d);
            },
            EventType::MouseScroll => {
                out.append("Scroll ");
                let up = match d.delta {
                    Some(n) => n > 0,
                    None => false,
                };
                if up {
                    out.append("Up");
                } else {
                    out.append("Down");
                }
                write_position(&mut out, d);
            },
        }
        proof {
            reveal_strlit("Key Down");
            reveal_strlit("Key Up");
            reveal_strlit(": ");
            reveal_strlit("Key Down: ");
            reveal_strlit("Key Up: ");
            assert("Key Down"@ + ": "@ =~= "Key Down: "@);
            assert("Key Up"@ + ": "@ =~= "Key Up: "@);
        }
        assert(out@ =~= describe(self@));
        out
    }

    /// Reads one line of the text format. Blank lines, comments and lines
    /// that do not hold an event give `None`.
    pub fn from_mcr_line(line: &str) -> (r: Option<MacroEvent>)
        ensures
            opt_event_view(r) == decode(line@),
    {
        let v = chars_of(line);
        let (a, b) = trim_bounds(&v);
        if a == b || v[a] == '#' {
            return None;
        }
        let spans = split_spans(&v, a, b, ';');
        let ghost fs = span_texts(v@, spans@);
        if spans.len() < 2 {
            return None;
        }
        let (t0, t1) = spans[0];
        let (c0, c1) = spans[1];
        assert(fs[0] == v@.subrange(t0 as int, t1 as int));
        assert(fs[1] == v@.subrange(c0 as int, c1 as int));
        let ts = match parse_timestamp_span(&v, t0, t1) {
            Some(t) => t,
            None => {
                return None;
            },
        };
        let kind = match kind_from_span(&v, c0, c1) {
            Some(k) => k,
            None => {
                return None;
            },
        };
        let mut data = EventData::new();
        let mut j: usize = 2;
        assert(fs.subrange(2, 2) =~= Seq::<Seq<char>>::empty());
        while j < spans.len()
            invariant
                2 <= j <= spans@.len(),
                v@ == line@,
                spans_within(spans@, a as int, b as int),
                b <= v@.len(),
                fs == span_texts(v@, spans@),
                data@ == apply_fields(empty_data(), fs.subrange(2, j as int)),
            decreases spans@.len() - j,
        {
            let (f0, f1) = spans[j];
            assert(spans@[j as int] == (f0, f1));
            assert(fs.subrange(2, j + 1).drop_last() =~= fs.subrange(2, j as int));
            assert(fs.subrange(2, j + 1).last() == v@.subrange(f0 as int, f1 as int));
            apply_field_span(&mut data, line, &v, f0, f1);
            j = j + 1;
        }
        assert(fs.subrange(2, j as int) =~= fs.skip(2));
        Some(MacroEvent { timestamp_us: ts, event_type: kind, data })
    }

    pub fn new(timestamp_us: u64, event_type: EventType) -> (r: MacroEvent)
        ensures
            r@ == (EventView { timestamp_us, kind: event_type, data: empty_data() }),
    {
        MacroEvent { timestamp_us, event_type, data: EventData::new() }
    }

    pub fn with_data(timestamp_us: u64, event_type: EventType, data: EventData) -> (r: MacroEvent)
        ensures
            r@ == (EventView { timestamp_us, kind: event_type, data: data@ }),
    {
        MacroEvent { timestamp_us, event_type, data }
    }

    pub fn is_mouse_move(&self) -> (r: bool)
        ensures
            r == (self.event_type == EventType::MouseMove),
    {
        match self.event_type {
            EventType::MouseMove => true,
            _ => false,
        }
    }

    /// The line of the text format that holds this event.
    pub fn to_mcr_line(&self) -> (r: String)
        ensures
            r@ == encode(self@),
    {
        let mut out = String::new();
        write_timestamp(&mut out, self.timestamp_us);
        write_sep(&mut out);
        out.append(self.event_type.code());
        let ghost e = self@;
        let ghost base = seq![timestamp_text(e.timestamp_us), code_of(e.kind)];
        proof {
            lemma_join_push(seq![timestamp_text(e.timestamp_us)], code_of(e.kind));
            assert(seq![timestamp_text(e.timestamp_us)].push(code_of(e.kind)) =~= base);
            assert(out@ =~= join_fields(base));
        }
        let d = &self.data;
        match self.event_type {
            EventType::KeyDown | EventType::KeyUp => {
                if let Some(k) = &d.key_name {
                    write_str_field(&mut out, "char", k.as_str());
                    proof {
                        lemma_join_push(base, kv("char"@, k@));
                        assert(event_fields(e) =~= base.push(kv("char"@, k@)));
                    }
                }
            },
            EventType::MouseMove => {
                if let (Some(x), Some(y)) = (d.x, d.y) {
                    write_int_field(&mut out, "x", x);
                    write_int_field(&mut out, "y", y);
                    proof {
                        let f1 = kv("x"@, int_text(x as int));
                        lemma_join_push(base, f1);
                        lemma_join_push(base.push(f1), kv("y"@, int_text(y as int)));
                        assert(event_fields(e) =~= base.push(f1).push(kv("y"@, int_text(y as int))));
                    }
                }
            },
            EventType::MouseDown | EventType::MouseUp => {
                if let (Some(x), Some(y), Some(b)) = (d.x, d.y, d.button) {
                    write_str_field(&mut out, "button", button_text(b));
                    write_int_field(&mut out, "x", x);
                    write_int_field(&mut out, "y", y);
                    proof {
                        let f1 = kv("button"@, button_name(b));
                        let f2 = kv("x"@, int_text(x as int));
                        lemma_join_push(base, f1);
                        lemma_join_push(base.push(f1), f2);
                        lemma_join_push(base.push(f1).push(f2), kv("y"@, int_text(y as int)));
                        assert(event_fields(e) =~= base.push(f1).push(f2).push(kv("y"@, int_text(y as int))));
                    }
                }
            },
            EventType::MouseScroll => {
                if let (Some(x), Some(y), Some(delta)) = (d.x, d.y, d.delta) {
                    let step: i64 = if delta > 0 { 1 } else { -1 };
                    write_int_field(&mut out, "dx", 0);
                    write_int_field(&mut out, "dy", step);
                    write_int_field(&mut out, "x", x);
                    write_int_field(&mut out, "y", y);
                    proof {
                        let f1 = kv("dx"@, int_text(0));
                        let f2 = kv("dy"@, int_text(step as int));
                        let f3 = kv("x"@, int_text(x as int));
                        lemma_join_push(base, f1);
                        lemma_join_push(base.push(f1), f2);
                        lemma_join_push(base.push(f1).push(f2), f3);
                        lemma_join_push(base.push(f1).push(f2).push(f3), kv("y"@, int_text(y as int)));
                        assert(event_fields(e) =~= base.push(f1).push(f2).push(f3).push(
                            kv("y"@, int_text(y as int)),
                        ));
                    }
                }
            },
        }
        proof {
            if attr_fields(e).len() == 0 {
                assert(event_fields(e) =~= base);
            }
        }
        out
    }
}

} // verus!
