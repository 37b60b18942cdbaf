use vstd::prelude::*;
use crate::events::{
    DataView, EventType, EventView, apply_field, apply_fields, attr_fields, button_code,
    button_name, code_of, complete_event, decode, empty_data, encode, event_fields, is_int_key,
    kind_from_code, kv, lemma_code_round_trip, parse_timestamp, scroll_step, timestamp_text,
    valid_event, with_int, frac_micros,
};
use crate::player::{decode_all, sort_by_time, timeline_of};
use crate::recorder::timeline_text;
use crate::text::{
    digits_value, fixed_text, index_of, int_text, is_digit, is_space, join_fields,
    lemma_fixed_text, lemma_index_of_found, lemma_int_text, lemma_nat_text, lemma_pow10_six,
    lemma_split_join, nat_text, split_fields, split_on, trim,
};

verus! {

/// The sign of an integer: -1, 0 or 1.
pub open spec fn sign(n: i64) -> i64 {
    if n > 0 {
        1
    } else if n < 0 {
        -1i64
    } else {
        0
    }
}

pub open spec fn no_sep(s: Seq<char>) -> bool {
    forall|i: int| 0 <= i < s.len() ==> #[trigger] s[i] != ';'
}

pub open spec fn no_eq(s: Seq<char>) -> bool {
    forall|i: int| 0 <= i < s.len() ==> #[trigger] s[i] != '='
}

/// What reading back the written attributes gives.
pub open spec fn read_back(e: EventView) -> DataView {
    let d = e.data;
    match e.kind {
        EventType::KeyDown | EventType::KeyUp => DataView { key_name: d.key_name, ..empty_data() },
        EventType::MouseMove => if d.x is Some && d.y is Some {
            DataView { x: d.x, y: d.y, ..empty_data() }
        } else {
            empty_data()
        },
        EventType::MouseDown | EventType::MouseUp => if d.x is Some && d.y is Some
            && d.button is Some {
            DataView {
                button: Some(button_code(button_name(d.button->0))),
                x: d.x,
                y: d.y,
                ..empty_data()
            }
        } else {
            empty_data()
        },
        EventType::MouseScroll => if d.x is Some && d.y is Some && d.delta is Some {
            DataView {
                dx: Some(0),
                dy: Some(scroll_step(d.delta->0)),
                x: d.x,
                y: d.y,
                ..empty_data()
            }
        } else {
            empty_data()
        },
    }
}

proof fn lemma_key_literals()
    ensures
        "char"@ == seq!['c', 'h', 'a', 'r'],
        "x"@ == seq!['x'],
        "y"@ == seq!['y'],
        "dx"@ == seq!['d', 'x'],
        "dy"@ == seq!['d', 'y'],
        "button"@ == seq!['b', 'u', 't', 't', 'o', 'n'],
        "="@ == seq!['='],
        "."@ == seq!['.'],
        "left"@ == seq!['l', 'e', 'f', 't'],
        "right"@ == seq!['r', 'i', 'g', 'h', 't'],
        "middle"@ == seq!['m', 'i', 'd', 'd', 'l', 'e'],
        "unknown"@ == seq!['u', 'n', 'k', 'n', 'o', 'w', 'n'],
{
    reveal_strlit("char");
    reveal_strlit("x");
    reveal_strlit("y");
    reveal_strlit("dx");
    reveal_strlit("dy");
    reveal_strlit("button");
    reveal_strlit("=");
    reveal_strlit(".");
    reveal_strlit("left");
    reveal_strlit("right");
    reveal_strlit("middle");
    reveal_strlit("unknown");
    assert("char"@ =~= seq!['c', 'h', 'a', 'r']);
    assert("x"@ =~= seq!['x']);
    assert("y"@ =~= seq!['y']);
    assert("dx"@ =~= seq!['d', 'x']);
    assert("dy"@ =~= seq!['d', 'y']);
    assert("button"@ =~= seq!['b', 'u', 't', 't', 'o', 'n']);
    assert("="@ =~= seq!['=']);
    assert("."@ =~= seq!['.']);
    assert("left"@ =~= seq!['l', 'e', 'f', 't']);
    assert("right"@ =~= seq!['r', 'i', 'g', 'h', 't']);
    assert("middle"@ =~= seq!['m', 'i', 'd', 'd', 'l', 'e']);
    assert("unknown"@ =~= seq!['u', 'n', 'k', 'n', 'o', 'w', 'n']);
}

/// A `key=value` field splits back into its key and value.
proof fn lemma_kv(k: Seq<char>, v: Seq<char>)
    requires
        no_eq(k),
        no_sep(k),
        no_sep(v),
    ensures
        no_sep(kv(k, v)),
        index_of(kv(k, v), '=') == k.len(),
        kv(k, v).take(k.len() as int) == k,
        kv(k, v).skip(k.len() as int + 1) == v,
{
    lemma_key_literals();
    let f = kv(k, v);
    assert(f[k.len() as int] == '=');
    assert forall|j: int| 0 <= j < k.len() implies f[j] != '=' by {
        assert(f[j] == k[j]);
    }
    lemma_index_of_found(f, '=', k.len() as int);
    assert(f.take(k.len() as int) =~= k);
    assert(f.skip(k.len() as int + 1) =~= v);
    assert forall|i: int| 0 <= i < f.len() implies #[trigger] f[i] != ';' by {
        if i < k.len() {
            assert(f[i] == k[i]);
        } else if i > k.len() {
            assert(f[i] == v[i - k.len() - 1]);
        }
    }
}

proof fn lemma_int_field(k: Seq<char>, n: i64, d: DataView)
    requires
        is_int_key(k),
        k.len() <= 2,
        no_eq(k),
        no_sep(k),
        k != "char"@,
    ensures
        no_sep(kv(k, int_text(n as int))),
        apply_field(d, kv(k, int_text(n as int))) == with_int(d, k, n),
        kv(k, int_text(n as int)).len() > 0,
        is_digit(kv(k, int_text(n as int)).last()),
{
    lemma_int_text(n);
    let t = int_text(n as int);
    lemma_kv(k, t);
    let m: nat = if n < 0 { (-n) as nat } else { n as nat };
    lemma_nat_text(m);
    assert(kv(k, t).last() == t.last());
    if n < 0 {
        assert(t.last() == nat_text(m).last());
    }
    assert(is_digit(nat_text(m)[nat_text(m).len() - 1]));
}

proof fn lemma_timestamp_text(t: u64)
    ensures
        parse_timestamp(timestamp_text(t)) == Some(t),
        no_sep(timestamp_text(t)),
        timestamp_text(t).len() > 0,
        is_digit(timestamp_text(t)[0]),
{
    lemma_key_literals();
    lemma_pow10_six();
    let a: nat = t as nat / 1_000_000;
    let b: nat = t as nat % 1_000_000;
    lemma_nat_text(a);
    lemma_fixed_text(b, 6);
    let ip = nat_text(a);
    let fp = fixed_text(b, 6);
    let s = timestamp_text(t);
    assert(s =~= ip + seq!['.'] + fp);
    assert forall|j: int| 0 <= j < ip.len() implies s[j] != '.' by {
        assert(s[j] == ip[j]);
        assert(is_digit(ip[j]));
    }
    lemma_index_of_found(s, '.', ip.len() as int);
    assert(s.take(ip.len() as int) =~= ip);
    assert(s.skip(ip.len() as int + 1) =~= fp);
    assert(fp.take(6) =~= fp);
    assert(frac_micros(fp) == b);
    assert(digits_value(ip) * 1_000_000 + b == t);
    assert forall|i: int| 0 <= i < s.len() implies #[trigger] s[i] != ';' by {
        if i < ip.len() {
            assert(is_digit(ip[i]));
        } else if i > ip.len() {
            assert(s[i] == fp[i - ip.len() - 1]);
            assert(is_digit(fp[i - ip.len() - 1]));
        }
    }
    assert(is_digit(ip[0]));
}

proof fn lemma_join_ends(fs: Seq<Seq<char>>)
    requires
        fs.len() > 0,
        fs[0].len() > 0,
        fs.last().len() > 0,
    ensures
        join_fields(fs).len() > 0,
        join_fields(fs)[0] == fs[0][0],
        join_fields(fs).last() == fs.last().last(),
    decreases fs.len(),
{
    if fs.len() > 1 {
        let p = fs.drop_last();
        if p.len() > 1 {
            assert(p[0] == fs[0]);
            assert(p.last().len() > 0 || p.last().len() == 0);
        }
        if p.last().len() > 0 {
            lemma_join_ends(p);
        } else {
            lemma_join_prefix_first(p);
        }
    }
}

proof fn lemma_join_prefix_first(fs: Seq<Seq<char>>)
    requires
        fs.len() > 0,
        fs[0].len() > 0,
    ensures
        join_fields(fs).len() > 0,
        join_fields(fs)[0] == fs[0][0],
    decreases fs.len(),
{
    if fs.len() > 1 {
        let p = fs.drop_last();
        assert(p[0] == fs[0]);
        lemma_join_prefix_first(p);
    }
}

proof fn lemma_apply_push(d: DataView, fs: Seq<Seq<char>>, f: Seq<char>)
    ensures
        apply_fields(d, fs.push(f)) == apply_field(apply_fields(d, fs), f),
{
    assert(fs.push(f).drop_last() =~= fs);
}

pub open spec fn attrs_ok(e: EventView) -> bool {
    let attrs = attr_fields(e);
    &&& apply_fields(empty_data(), attrs) == read_back(e)
    &&& forall|k: int, i: int| 0 <= k < attrs.len() && 0 <= i < attrs[k].len() ==> #[trigger] attrs[k][i] != ';'
    &&& attrs.len() > 0 ==> attrs.last().len() > 0 && !is_space(attrs.last().last())
}

proof fn lemma_attrs_key(e: EventView)
    requires
        complete_event(e),
        e.kind == EventType::KeyDown || e.kind == EventType::KeyUp,
    ensures
        attrs_ok(e),
{
    lemma_key_literals();
    let attrs = attr_fields(e);
    let d0 = empty_data();
    match e.data.key_name {
        Some(k) => {
            lemma_kv("char"@, k);
            let e0 = Seq::<Seq<char>>::empty();
            assert(apply_fields(d0, e0) == d0);
            lemma_apply_push(d0, e0, kv("char"@, k));
            assert(attrs =~= e0.push(kv("char"@, k)));
            if k.len() > 0 {
                assert(kv("char"@, k).last() == k.last());
            }
        },
        None => {},
    }
}

proof fn lemma_attrs_move(e: EventView)
    requires
        complete_event(e),
        e.kind == EventType::MouseMove,
    ensures
        attrs_ok(e),
{
    lemma_key_literals();
    let d = e.data;
    let attrs = attr_fields(e);
    let d0 = empty_data();
    if d.x is Some && d.y is Some {
        let f1 = kv("x"@, int_text(d.x->0 as int));
        lemma_int_field("x"@, d.x->0, d0);
        let d1 = with_int(d0, "x"@, d.x->0);
        lemma_int_field("y"@, d.y->0, d1);
        let e0 = Seq::<Seq<char>>::empty();
        assert(apply_fields(d0, e0) == d0);
        lemma_apply_push(d0, e0, f1);
        lemma_apply_push(d0, e0.push(f1), kv("y"@, int_text(d.y->0 as int)));
        assert(attrs =~= e0.push(f1).push(kv("y"@, int_text(d.y->0 as int))));
    }
}

proof fn lemma_attrs_button(e: EventView)
    requires
        complete_event(e),
        e.kind == EventType::MouseDown || e.kind == EventType::MouseUp,
    ensures
        attrs_ok(e),
{
    lemma_key_literals();
    let d = e.data;
    let attrs = attr_fields(e);
    let d0 = empty_data();
    if d.x is Some && d.y is Some && d.button is Some {
        let f0 = kv("button"@, button_name(d.button->0));
        let f1 = kv("x"@, int_text(d.x->0 as int));
        lemma_kv("button"@, button_name(d.button->0));
        let d1 = apply_field(d0, f0);
        lemma_int_field("x"@, d.x->0, d1);
        let d2 = with_int(d1, "x"@, d.x->0);
        lemma_int_field("y"@, d.y->0, d2);
        let e0 = Seq::<Seq<char>>::empty();
        let f2 = kv("y"@, int_text(d.y->0 as int));
        assert(apply_fields(d0, e0) == d0);
        lemma_apply_push(d0, e0, f0);
        lemma_apply_push(d0, e0.push(f0), f1);
        lemma_apply_push(d0, e0.push(f0).push(f1), f2);
        assert(attrs =~= e0.push(f0).push(f1).push(f2));
    }
}

proof fn lemma_attrs_scroll(e: EventView)
    requires
        complete_event(e),
        e.kind == EventType::MouseScroll,
    ensures
        attrs_ok(e),
{
    lemma_key_literals();
    let d = e.data;
    let attrs = attr_fields(e);
    let d0 = empty_data();
    if d.x is Some && d.y is Some && d.delta is Some {
        let f0 = kv("dx"@, int_text(0));
        let f1 = kv("dy"@, int_text(scroll_step(d.delta->0) as int));
        let f2 = kv("x"@, int_text(d.x->0 as int));
        lemma_int_field("dx"@, 0, d0);
        let d1 = with_int(d0, "dx"@, 0);
        lemma_int_field("dy"@, scroll_step(d.delta->0), d1);
        let d2 = with_int(d1, "dy"@, scroll_step(d.delta->0));
        lemma_int_field("x"@, d.x->0, d2);
        let d3 = with_int(d2, "x"@, d.x->0);
        lemma_int_field("y"@, d.y->0, d3);
        let e0 = Seq::<Seq<char>>::empty();
        let f3 = kv("y"@, int_text(d.y->0 as int));
        assert(apply_fields(d0, e0) == d0);
        lemma_apply_push(d0, e0, f0);
        lemma_apply_push(d0, e0.push(f0), f1);
        lemma_apply_push(d0, e0.push(f0).push(f1), f2);
        lemma_apply_push(d0, e0.push(f0).push(f1).push(f2), f3);
        assert(attrs =~= e0.push(f0).push(f1).push(f2).push(f3));
    }
}

/// Reading back what was written gives the timestamp and kind unchanged and
/// the attributes of `read_back`.
pub proof fn lemma_decode_encode(e: EventView)
    requires
        complete_event(e),
    ensures
        decode(encode(e)) == Some(EventView { data: read_back(e), ..e }),
{
    lemma_timestamp_text(e.timestamp_us);
    lemma_code_round_trip(e.kind);
    match e.kind {
        EventType::KeyDown | EventType::KeyUp => lemma_attrs_key(e),
        EventType::MouseMove => lemma_attrs_move(e),
        EventType::MouseDown | EventType::MouseUp => lemma_attrs_button(e),
        EventType::MouseScroll => lemma_attrs_scroll(e),
    }
    let base = seq![timestamp_text(e.timestamp_us), code_of(e.kind)];
    let fs = event_fields(e);
    let attrs = attr_fields(e);
    assert(fs =~= base + attrs);
    assert forall|k: int, i: int| 0 <= k < fs.len() && 0 <= i < fs[k].len() implies #[trigger] fs[k][i] != ';' by {
        if k >= 2 {
            assert(fs[k] == attrs[k - 2]);
        }
    }
    lemma_split_join(fs);
    assert(fs.skip(2) =~= attrs);
    if attrs.len() > 0 {
        assert(fs.last() == attrs.last());
    }
    lemma_join_ends(fs);
    assert(trim(encode(e)) == encode(e));
}

proof fn lemma_button_names(b: u64)
    ensures
        button_code(button_name(b)) == (if 1 <= b <= 3 { b } else { 0 }),
{
    lemma_key_literals();
    assert("left"@ != "unknown"@);
    assert("right"@ != "unknown"@);
    assert("middle"@ != "unknown"@);
    assert("left"@ != "right"@);
    assert("left"@ != "middle"@);
    assert("right"@ != "middle"@);
}

/// Every event that is valid, complete, has no out-of-range button code and
/// is not a scroll reads back from its line exactly as it was.
pub proof fn lemma_round_trip(e: EventView)
    requires
        valid_event(e),
        complete_event(e),
        e.kind != EventType::MouseScroll,
        e.data.button matches Some(b) ==> b <= 3,
    ensures
        decode(encode(e)) == Some(e),
{
    lemma_decode_encode(e);
    if let Some(b) = e.data.button {
        lemma_button_names(b);
    }
    assert(e.data.extra =~= empty_data().extra);
    assert(read_back(e) == e.data);
}

/// A scroll reads back with its timestamp and position exact, and with the
/// sign of its wheel delta as `dy`; the magnitude is lost.
pub proof fn lemma_scroll_round_trip(e: EventView)
    requires
        valid_event(e),
        complete_event(e),
        e.kind == EventType::MouseScroll,
        e.data.delta is Some,
        e.data.delta->0 != 0,
    ensures
        decode(encode(e)) is Some,
        decode(encode(e))->0.timestamp_us == e.timestamp_us,
        decode(encode(e))->0.kind == e.kind,
        decode(encode(e))->0.data.x == e.data.x,
        decode(encode(e))->0.data.y == e.data.y,
        decode(encode(e))->0.data.dy == Some(sign(e.data.delta->0)),
{
    lemma_decode_encode(e);
}

/// A button event reads back exactly when its button code is 1, 2 or 3; any
/// other code reads back as 0.
pub proof fn lemma_button_round_trip(e: EventView)
    requires
        valid_event(e),
        complete_event(e),
        e.kind == EventType::MouseDown || e.kind == EventType::MouseUp,
        e.data.button is Some,
    ensures
        decode(encode(e)) == Some(
            EventView {
                data: DataView {
                    button: Some(
                        if 1 <= e.data.button->0 <= 3 {
                            e.data.button->0
                        } else {
                            0
                        },
                    ),
                    ..e.data
                },
                ..e
            },
        ),
{
    lemma_decode_encode(e);
    lemma_button_names(e.data.button->0);
    assert(e.data.extra =~= empty_data().extra);
}

/// Blank lines, comment lines and lines whose type code is unknown hold no
/// event.
pub proof fn lemma_decode_nothing(line: Seq<char>)
    requires
        trim(line).len() == 0 || trim(line)[0] == '#' || kind_from_code(
            split_fields(trim(line))[1],
        ) is None,
    ensures
        decode(line) is None,
{
}

/// Text without `c` extends the last piece.
proof fn lemma_split_extend(a: Seq<char>, b: Seq<char>, c: char)
    requires
        forall|i: int| 0 <= i < b.len() ==> b[i] != c,
    ensures
        ({
            let p = split_on(a, c);
            split_on(a + b, c) == p.update(p.len() - 1, p.last() + b)
        }),
    decreases b.len(),
{
    let p = split_on(a, c);
    lemma_split_len(a, c);
    if b.len() == 0 {
        assert(a + b =~= a);
        assert(p.last() + b =~= p.last());
        assert(p.update(p.len() - 1, p.last() + b) =~= p);
    } else {
        lemma_split_extend(a, b.drop_last(), c);
        assert((a + b).drop_last() =~= a + b.drop_last());
        assert((a + b).last() == b.last());
        assert(p.last() + b.drop_last() + seq![b.last()] =~= p.last() + b);
        let q = split_on(a + b.drop_last(), c);
        assert(b[b.len() - 1] != c);
        assert(q.len() == p.len());
        assert(q.last() == p.last() + b.drop_last());
        assert(split_on(a + b, c) == q.update(q.len() - 1, q.last().push(b.last())));
        assert(q.last().push(b.last()) =~= p.last() + b);
        assert(split_on(a + b, c) =~= p.update(p.len() - 1, p.last() + b));
    }
}

proof fn lemma_split_len(a: Seq<char>, c: char)
    ensures
        split_on(a, c).len() >= 1,
    decreases a.len(),
{
    if a.len() > 0 {
        lemma_split_len(a.drop_last(), c);
    }
}

/// The lines of a timeline's text: one per event, then an empty piece after
/// the final line break.
proof fn lemma_split_timeline(s: Seq<EventView>)
    requires
        forall|k: int, i: int| 0 <= k < s.len() && 0 <= i < encode(s[k]).len() ==> #[trigger] encode(
            s[k],
        )[i] != '\n',
    ensures
        split_on(timeline_text(s), '\n') == s.map_values(|e: EventView| encode(e)).push(Seq::empty()),
    decreases s.len(),
{
    let lines = s.map_values(|e: EventView| encode(e));
    if s.len() == 0 {
        assert(lines =~= Seq::<Seq<char>>::empty());
        assert(split_on(timeline_text(s), '\n') =~= lines.push(Seq::empty()));
    } else {
        let s0 = s.drop_last();
        let e = s.last();
        assert forall|k: int, i: int| 0 <= k < s0.len() && 0 <= i < encode(s0[k]).len() implies #[trigger] encode(
            s0[k],
        )[i] != '\n' by {
            assert(s0[k] == s[k]);
        }
        lemma_split_timeline(s0);
        let t0 = timeline_text(s0);
        assert forall|i: int| 0 <= i < encode(e).len() implies encode(e)[i] != '\n' by {
            assert(encode(s[s.len() - 1])[i] != '\n');
        }
        lemma_split_extend(t0, encode(e), '\n');
        let u = t0 + encode(e);
        assert(timeline_text(s) =~= u + seq!['\n']);
        assert((u + seq!['\n']).drop_last() =~= u);
        let l0 = s0.map_values(|e: EventView| encode(e));
        assert(Seq::<char>::empty() + encode(e) =~= encode(e));
        assert(l0.push(Seq::empty()).update(l0.len() as int, encode(e)) =~= l0.push(encode(e)));
        assert(lines =~= l0.push(encode(e)));
        assert(split_on(timeline_text(s), '\n') =~= lines.push(Seq::empty()));
    }
}

pub open spec fn read_back_event(e: EventView) -> EventView {
    EventView { data: read_back(e), ..e }
}

proof fn lemma_decode_lines(s: Seq<EventView>)
    requires
        forall|k: int| 0 <= k < s.len() ==> complete_event(#[trigger] s[k]),
    ensures
        decode_all(s.map_values(|e: EventView| encode(e))) == s.map_values(|e: EventView| read_back_event(e)),
    decreases s.len(),
{
    let lines = s.map_values(|e: EventView| encode(e));
    if s.len() == 0 {
        assert(lines =~= Seq::<Seq<char>>::empty());
        assert(s.map_values(|e: EventView| read_back_event(e)) =~= Seq::<EventView>::empty());
    } else {
        let s0 = s.drop_last();
        assert forall|k: int| 0 <= k < s0.len() implies complete_event(#[trigger] s0[k]) by {
            assert(s0[k] == s[k]);
        }
        lemma_decode_lines(s0);
        lemma_decode_encode(s.last());
        assert(lines.drop_last() =~= s0.map_values(|e: EventView| encode(e)));
        assert(s.map_values(|e: EventView| read_back_event(e)) =~= s0.map_values(
            |e: EventView| read_back_event(e),
        ).push(read_back_event(s.last())));
    }
}

/// Loading the saved text of a recording gives back its events, each as the
/// text format reads it back, stably sorted by timestamp. Every event must
/// be complete and its line free of line breaks.
pub proof fn lemma_save_then_load(s: Seq<EventView>)
    requires
        forall|k: int| 0 <= k < s.len() ==> complete_event(#[trigger] s[k]),
        forall|k: int, i: int| 0 <= k < s.len() && 0 <= i < encode(s[k]).len() ==> #[trigger] encode(
            s[k],
        )[i] != '\n',
    ensures
        timeline_of(timeline_text(s)) == sort_by_time(s.map_values(|e: EventView| read_back_event(e))),
{
    lemma_split_timeline(s);
    lemma_decode_lines(s);
    let lines = s.map_values(|e: EventView| encode(e));
    assert(lines.push(Seq::empty()).drop_last() =~= lines);
    assert(trim(Seq::<char>::empty()) =~= Seq::<char>::empty());
    assert(decode(Seq::empty()) is None);
}

} // verus!
