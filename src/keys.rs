use vstd::prelude::*;
use crate::events::{EventData, EventType, EventView, MacroEvent, empty_data};
use crate::text::{
    all_digits, chars_of, digits_value, is_digit, lemma_nat_text, nat_text, parse_digits, span_eq,
    write_nat,
};

verus! {

/// The names of the control keys, by virtual-key code.
pub open spec fn named_key(vk: u32) -> Option<Seq<char>> {
    if vk == 0x20 {
        Some("space"@)
    } else if vk == 0x0D {
        Some("enter"@)
    } else if vk == 0x08 {
        Some("backspace"@)
    } else if vk == 0x09 {
        Some("tab"@)
    } else if vk == 0x10 {
        Some("shift"@)
    } else if vk == 0x11 {
        Some("ctrl"@)
    } else if vk == 0x12 {
        Some("alt"@)
    } else if vk == 0x1B {
        Some("esc"@)
    } else if vk == 0x25 {
        Some("left"@)
    } else if vk == 0x26 {
        Some("up"@)
    } else if vk == 0x27 {
        Some("right"@)
    } else if vk == 0x28 {
        Some("down"@)
    } else if vk == 0x2E {
        Some("delete"@)
    } else if vk == 0x2D {
        Some("insert"@)
    } else if vk == 0x24 {
        Some("home"@)
    } else if vk == 0x23 {
        Some("end"@)
    } else if vk == 0x21 {
        Some("page_up"@)
    } else if vk == 0x22 {
        Some("page_down"@)
    } else if vk == 0xBA {
        Some(";"@)
    } else if vk == 0xBB {
        Some("="@)
    } else if vk == 0xBC {
        Some(","@)
    } else if vk == 0xBD {
        Some("-"@)
    } else if vk == 0xBE {
        Some("."@)
    } else if vk == 0xBF {
        Some("/"@)
    } else if vk == 0xC0 {
        Some("`"@)
    } else if vk == 0xDB {
        Some("["@)
    } else if vk == 0xDC {
        Some("\\"@)
    } else if vk == 0xDD {
        Some("]"@)
    } else if vk == 0xDE {
        Some("'"@)
    } else {
        None
    }
}

/// The canonical name of a virtual-key code.
pub open spec fn key_name_of(vk: u32) -> Seq<char> {
    if 0x41 <= vk <= 0x5A {
        "abcdefghijklmnopqrstuvwxyz"@.subrange(vk - 0x41, vk - 0x40)
    } else if 0x30 <= vk <= 0x39 {
        "0123456789"@.subrange(vk - 0x30, vk - 0x2F)
    } else if 0x70 <= vk <= 0x7B {
        "f"@ + nat_text((vk - 0x6F) as nat)
    } else {
        match named_key(vk) {
            Some(n) => n,
            None => "vk_"@ + nat_text(vk as nat),
        }
    }
}

/// The code of a control key's name.
pub open spec fn named_code(s: Seq<char>) -> Option<u16> {
    if s == "space"@ {
        Some(0x20)
    } else if s == "enter"@ {
        Some(0x0D)
    } else if s == "backspace"@ {
        Some(0x08)
    } else if s == "tab"@ {
        Some(0x09)
    } else if s == "shift"@ {
        Some(0x10)
    } else if s == "ctrl"@ {
        Some(0x11)
    } else if s == "alt"@ {
        Some(0x12)
    } else if s == "esc"@ {
        Some(0x1B)
    } else if s == "left"@ {
        Some(0x25)
    } else if s == "up"@ {
        Some(0x26)
    } else if s == "right"@ {
        Some(0x27)
    } else if s == "down"@ {
        Some(0x28)
    } else if s == "delete"@ {
        Some(0x2E)
    } else if s == "insert"@ {
        Some(0x2D)
    } else if s == "home"@ {
        Some(0x24)
    } else if s == "end"@ {
        Some(0x23)
    } else if s == "page_up"@ {
        Some(0x21)
    } else if s == "page_down"@ {
        Some(0x22)
    } else if s == ";"@ {
        Some(0xBA)
    } else if s == "="@ {
        Some(0xBB)
    } else if s == ","@ {
        Some(0xBC)
    } else if s == "-"@ {
        Some(0xBD)
    } else if s == "."@ {
        Some(0xBE)
    } else if s == "/"@ {
        Some(0xBF)
    } else if s == "`"@ {
        Some(0xC0)
    } else if s == "["@ {
        Some(0xDB)
    } else if s == "\\"@ {
        Some(0xDC)
    } else if s == "]"@ {
        Some(0xDD)
    } else if s == "'"@ {
        Some(0xDE)
    } else {
        None
    }
}

/// Reading an unsigned 16-bit number: an optional `+`, then digits.
pub open spec fn parse_u16(s: Seq<char>) -> Option<u16> {
    let body = if s.len() > 0 && s[0] == '+' { s.drop_first() } else { s };
    if body.len() > 0 && all_digits(body) && digits_value(body) < 0x10000 {
        Some(digits_value(body) as u16)
    } else {
        None
    }
}

/// The virtual-key code of a key name, if it has one.
pub open spec fn key_code_of(s: Seq<char>) -> Option<u16> {
    if s.len() == 1 && 'a' <= s[0] <= 'z' {
        Some((s[0] as int - 32) as u16)
    } else if s.len() == 1 && '0' <= s[0] <= '9' {
        Some(s[0] as u16)
    } else if s.len() > 0 && s[0] == 'f' && s.len() <= 3 {
        match parse_u16(s.drop_first()) {
            Some(n) => if 1 <= n <= 12 {
                Some((0x6F + n) as u16)
            } else {
                None
            },
            None => None,
        }
    } else {
        match named_code(s) {
            Some(c) => Some(c),
            None => if s.len() >= 3 && s.take(3) == "vk_"@ {
                parse_u16(s.skip(3))
            } else {
                None
            },
        }
    }
}

fn named_key_text(vk: u32) -> (r: Option<&'static str>)
    ensures
        match r {
            Some(t) => named_key(vk) == Some(t@),
            None => named_key(vk) is None,
        },
{
    if vk == 0x20 {
        Some("space")
    } else if vk == 0x0D {
        Some("enter")
    } else if vk == 0x08 {
        Some("backspace")
    } else if vk == 0x09 {
        Some("tab")
    } else if vk == 0x10 {
        Some("shift")
    } else if vk == 0x11 {
        Some("ctrl")
    } else if vk == 0x12 {
        Some("alt")
    } else if vk == 0x1B {
        Some("esc")
    } else if vk == 0x25 {
        Some("left")
    } else if vk == 0x26 {
        Some("up")
    } else if vk == 0x27 {
        Some("right")
    } else if vk == 0x28 {
        Some("down")
    } else if vk == 0x2E {
        Some("delete")
    } else if vk == 0x2D {
        Some("insert")
    } else if vk == 0x24 {
        Some("home")
    } else if vk == 0x23 {
        Some("end")
    } else if vk == 0x21 {
        Some("page_up")
    } else if vk == 0x22 {
        Some("page_down")
    } else if vk == 0xBA {
        Some(";")
    } else if vk == 0xBB {
        Some("=")
    } else if vk == 0xBC {
        Some(",")
    } else if vk == 0xBD {
        Some("-")
    } else if vk == 0xBE {
        Some(".")
    } else if vk == 0xBF {
        Some("/")
    } else if vk == 0xC0 {
        Some("`")
    } else if vk == 0xDB {
        Some("[")
    } else if vk == 0xDC {
        Some("\\")
    } else if vk == 0xDD {
        Some("]")
    } else if vk == 0xDE {
        Some("'")
    } else {
        None
    }
}

/// The canonical name of a virtual-key code.
pub fn vk_code_to_string(vk_code: u32) -> (r: String)
    ensures
        r@ == key_name_of(vk_code),
{
    if 0x41 <= vk_code && vk_code <= 0x5A {
        let i = (vk_code - 0x41) as usize;
        proof {
            reveal_strlit("abcdefghijklmnopqrstuvwxyz");
        }
        String::from_str("abcdefghijklmnopqrstuvwxyz".substring_char(i, i + 1))
    } else if 0x30 <= vk_code && vk_code <= 0x39 {
        let i = (vk_code - 0x30) as usize;
        proof {
            reveal_strlit("0123456789");
        }
        String::from_str("0123456789".substring_char(i, i + 1))
    } else if 0x70 <= vk_code && vk_code <= 0x7B {
        let mut s = String::from_str("f");
        write_nat(&mut s, (vk_code - 0x6F) as u64);
        s
    } else {
        match named_key_text(vk_code) {
            Some(t) => String::from_str(t),
            None => {
                let mut s = String::from_str("vk_");
                write_nat(&mut s, vk_code as u64);
                s
            },
        }
    }
}

fn parse_u16_span(v: &Vec<char>, a: usize, b: usize) -> (r: Option<u16>)
    requires
        a <= b <= v@.len(),
    ensures
        r == parse_u16(v@.subrange(a as int, b as int)),
{
    let ghost s = v@.subrange(a as int, b as int);
    let start: usize = if a < b && v[a] == '+' { a + 1 } else { a };
    assert(v@.subrange(start as int, b as int) =~= (if s.len() > 0 && s[0] == '+' { s.drop_first() } else { s }));
    if start == b {
        return None;
    }
    match parse_digits(v, start, b, 0x10000) {
        Some(n) => Some(n as u16),
        None => None,
    }
}

fn named_code_span(v: &Vec<char>) -> (r: Option<u16>)
    ensures
        r == named_code(v@),
{
    let n = v.len();
    assert(v@.subrange(0, n as int) =~= v@);
    if span_eq(v, 0, n, "space") {
        Some(0x20)
    } else if span_eq(v, 0, n, "enter") {
        Some(0x0D)
    } else if span_eq(v, 0, n, "backspace") {
        Some(0x08)
    } else if span_eq(v, 0, n, "tab") {
        Some(0x09)
    } else if span_eq(v, 0, n, "shift") {
        Some(0x10)
    } else if span_eq(v, 0, n, "ctrl") {
        Some(0x11)
    } else if span_eq(v, 0, n, "alt") {
        Some(0x12)
    } else if span_eq(v, 0, n, "esc") {
        Some(0x1B)
    } else if span_eq(v, 0, n, "left") {
        Some(0x25)
    } else if span_eq(v, 0, n, "up") {
        Some(0x26)
    } else if span_eq(v, 0, n, "right") {
        Some(0x27)
    } else if span_eq(v, 0, n, "down") {
        Some(0x28)
    } else if span_eq(v, 0, n, "delete") {
        Some(0x2E)
    } else if span_eq(v, 0, n, "insert") {
        Some(0x2D)
    } else if span_eq(v, 0, n, "home") {
        Some(0x24)
    } else if span_eq(v, 0, n, "end") {
        Some(0x23)
    } else if span_eq(v, 0, n, "page_up") {
        Some(0x21)
    } else if span_eq(v, 0, n, "page_down") {
        Some(0x22)
    } else if span_eq(v, 0, n, ";") {
        Some(0xBA)
    } else if span_eq(v, 0, n, "=") {
        Some(0xBB)
    } else if span_eq(v, 0, n, ",") {
        Some(0xBC)
    } else if span_eq(v, 0, n, "-") {
        Some(0xBD)
    } else if span_eq(v, 0, n, ".") {
        Some(0xBE)
    } else if span_eq(v, 0, n, "/") {
        Some(0xBF)
    } else if span_eq(v, 0, n, "`") {
        Some(0xC0)
    } else if span_eq(v, 0, n, "[") {
        Some(0xDB)
    } else if span_eq(v, 0, n, "\\") {
        Some(0xDC)
    } else if span_eq(v, 0, n, "]") {
        Some(0xDD)
    } else if span_eq(v, 0, n, "'") {
        Some(0xDE)
    } else {
        None
    }
}

/// The virtual-key code of a key name, if it has one.
pub fn key_name_to_vk_code(key_name: &str) -> (r: Option<u16>)
    ensures
        r == key_code_of(key_name@),
{
    let v = chars_of(key_name);
    let n = v.len();
    if n == 1 && 'a' <= v[0] && v[0] <= 'z' {
        return Some((v[0] as u32 - 32) as u16);
    }
    if n == 1 && '0' <= v[0] && v[0] <= '9' {
        return Some(v[0] as u32 as u16);
    }
    if n > 0 && v[0] == 'f' && n <= 3 {
        assert(v@.subrange(1, n as int) =~= v@.drop_first());
        return match parse_u16_span(&v, 1, n) {
            Some(k) => if 1 <= k && k <= 12 {
                Some(0x6F + k)
            } else {
                None
            },
            None => None,
        };
    }
    match named_code_span(&v) {
        Some(c) => Some(c),
        None => {
            if n >= 3 && span_eq(&v, 0, 3, "vk_") {
                assert(v@.subrange(0, 3) =~= v@.take(3));
                assert(v@.subrange(3, n as int) =~= v@.skip(3));
                parse_u16_span(&v, 3, n)
            } else {
                proof {
                    if n >= 3 {
                        assert(v@.subrange(0, 3) =~= v@.take(3));
                    }
                }
                None
            }
        },
    }
}

/// Whether a key is one of the recorder's own hotkeys (Ctrl, P, Q, R), which
/// are never recorded.
pub fn is_reserved_key(vk_code: u32) -> (r: bool)
    ensures
        r == (vk_code == 0x11 || vk_code == 0x50 || vk_code == 0x51 || vk_code == 0x52),
{
    vk_code == 0x11 || vk_code == 0x50 || vk_code == 0x51 || vk_code == 0x52
}

/// The kind and button of a low-level mouse message, if it is one the
/// recorder keeps.
pub open spec fn mouse_message_spec(msg: u32) -> Option<(EventType, Option<u64>)> {
    if msg == 0x0200 {
        Some((EventType::MouseMove, None))
    } else if msg == 0x0201 {
        Some((EventType::MouseDown, Some(1u64)))
    } else if msg == 0x0202 {
        Some((EventType::MouseUp, Some(1u64)))
    } else if msg == 0x0204 {
        Some((EventType::MouseDown, Some(2u64)))
    } else if msg == 0x0205 {
        Some((EventType::MouseUp, Some(2u64)))
    } else if msg == 0x0207 {
        Some((EventType::MouseDown, Some(3u64)))
    } else if msg == 0x0208 {
        Some((EventType::MouseUp, Some(3u64)))
    } else if msg == 0x020A {
        Some((EventType::MouseScroll, None))
    } else {
        None
    }
}

pub fn mouse_message_kind(msg: u32) -> (r: Option<(EventType, Option<u64>)>)
    ensures
        r == mouse_message_spec(msg),
{
    if msg == 0x0200 {
        Some((EventType::MouseMove, None))
    } else if msg == 0x0201 {
        Some((EventType::MouseDown, Some(1)))
    } else if msg == 0x0202 {
        Some((EventType::MouseUp, Some(1)))
    } else if msg == 0x0204 {
        Some((EventType::MouseDown, Some(2)))
    } else if msg == 0x0205 {
        Some((EventType::MouseUp, Some(2)))
    } else if msg == 0x0207 {
        Some((EventType::MouseDown, Some(3)))
    } else if msg == 0x0208 {
        Some((EventType::MouseUp, Some(3)))
    } else if msg == 0x020A {
        Some((EventType::MouseScroll, None))
    } else {
        None
    }
}

/// The signed wheel delta held in the high word of a mouse message's data.
pub fn wheel_delta(mouse_data: u32) -> (r: i64)
    ensures
        r == (if mouse_data / 0x10000 >= 0x8000 {
            mouse_data / 0x10000 - 0x10000
        } else {
            (mouse_data / 0x10000) as int
        }),
{
    let hi = (mouse_data / 0x10000) as i64;
    if hi >= 0x8000 {
        hi - 0x10000
    } else {
        hi
    }
}

/// The event for a key going down or up, named by the key-name table.
pub fn keyboard_event(timestamp_us: u64, vk_code: u32, is_key_down: bool) -> (r: MacroEvent)
    ensures
        r@ == (EventView {
            timestamp_us,
            kind: if is_key_down { EventType::KeyDown } else { EventType::KeyUp },
            data: crate::events::DataView { key_name: Some(key_name_of(vk_code)), ..empty_data() },
        }),
{
    let mut data = EventData::new();
    data.key_name = Some(vk_code_to_string(vk_code));
    MacroEvent {
        timestamp_us,
        event_type: if is_key_down { EventType::KeyDown } else { EventType::KeyUp },
        data,
    }
}

/// The event for a mouse action at `(x, y)`.
pub fn mouse_event(
    timestamp_us: u64,
    kind: EventType,
    x: i64,
    y: i64,
    button: Option<u64>,
    delta: Option<i64>,
) -> (r: MacroEvent)
    ensures
        r@ == (EventView {
            timestamp_us,
            kind,
            data: crate::events::DataView { x: Some(x), y: Some(y), button, delta, ..empty_data() },
        }),
{
    let mut data = EventData::new();
    data.x = Some(x);
    data.y = Some(y);
    data.button = button;
    data.delta = delta;
    MacroEvent { timestamp_us, event_type: kind, data }
}

/// Every name in the control-key table differs from the others, and none
/// looks like a letter, a digit, a function key or a `vk_` name.
proof fn lemma_named_keys_distinct()
    ensures
        "space"@.len() == 5,
        "space"@[0] != 'f' && "space"@[0] != 'v',
        "enter"@.len() == 5,
        "enter"@[0] != 'f' && "enter"@[0] != 'v',
        "backspace"@.len() == 9,
        "backspace"@[0] != 'f' && "backspace"@[0] != 'v',
        "tab"@.len() == 3,
        "tab"@[0] != 'f' && "tab"@[0] != 'v',
        "shift"@.len() == 5,
        "shift"@[0] != 'f' && "shift"@[0] != 'v',
        "ctrl"@.len() == 4,
        "ctrl"@[0] != 'f' && "ctrl"@[0] != 'v',
        "alt"@.len() == 3,
        "alt"@[0] != 'f' && "alt"@[0] != 'v',
        "esc"@.len() == 3,
        "esc"@[0] != 'f' && "esc"@[0] != 'v',
        "left"@.len() == 4,
        "left"@[0] != 'f' && "left"@[0] != 'v',
        "up"@.len() == 2,
        "up"@[0] != 'f' && "up"@[0] != 'v',
        "right"@.len() == 5,
        "right"@[0] != 'f' && "right"@[0] != 'v',
        "down"@.len() == 4,
        "down"@[0] != 'f' && "down"@[0] != 'v',
        "delete"@.len() == 6,
        "delete"@[0] != 'f' && "delete"@[0] != 'v',
        "insert"@.len() == 6,
        "insert"@[0] != 'f' && "insert"@[0] != 'v',
        "home"@.len() == 4,
        "home"@[0] != 'f' && "home"@[0] != 'v',
        "end"@.len() == 3,
        "end"@[0] != 'f' && "end"@[0] != 'v',
        "page_up"@.len() == 7,
        "page_up"@[0] != 'f' && "page_up"@[0] != 'v',
        "page_down"@.len() == 9,
        "page_down"@[0] != 'f' && "page_down"@[0] != 'v',
        ";"@.len() == 1,
        ";"@[0] != 'f' && ";"@[0] != 'v',
        !('a' <= ";"@[0] <= 'z') && !('0' <= ";"@[0] <= '9'),
        "="@.len() == 1,
        "="@[0] != 'f' && "="@[0] != 'v',
        !('a' <= "="@[0] <= 'z') && !('0' <= "="@[0] <= '9'),
        ","@.len() == 1,
        ","@[0] != 'f' && ","@[0] != 'v',
        !('a' <= ","@[0] <= 'z') && !('0' <= ","@[0] <= '9'),
        "-"@.len() == 1,
        "-"@[0] != 'f' && "-"@[0] != 'v',
        !('a' <= "-"@[0] <= 'z') && !('0' <= "-"@[0] <= '9'),
        "."@.len() == 1,
        "."@[0] != 'f' && "."@[0] != 'v',
        !('a' <= "."@[0] <= 'z') && !('0' <= "."@[0] <= '9'),
        "/"@.len() == 1,
        "/"@[0] != 'f' && "/"@[0] != 'v',
        !('a' <= "/"@[0] <= 'z') && !('0' <= "/"@[0] <= '9'),
        "`"@.len() == 1,
        "`"@[0] != 'f' && "`"@[0] != 'v',
        !('a' <= "`"@[0] <= 'z') && !('0' <= "`"@[0] <= '9'),
        "["@.len() == 1,
        "["@[0] != 'f' && "["@[0] != 'v',
        !('a' <= "["@[0] <= 'z') && !('0' <= "["@[0] <= '9'),
        "\\"@.len() == 1,
        "\\"@[0] != 'f' && "\\"@[0] != 'v',
        !('a' <= "\\"@[0] <= 'z') && !('0' <= "\\"@[0] <= '9'),
        "]"@.len() == 1,
        "]"@[0] != 'f' && "]"@[0] != 'v',
        !('a' <= "]"@[0] <= 'z') && !('0' <= "]"@[0] <= '9'),
        "'"@.len() == 1,
        "'"@[0] != 'f' && "'"@[0] != 'v',
        !('a' <= "'"@[0] <= 'z') && !('0' <= "'"@[0] <= '9'),
        "enter"@ != "space"@,
        "shift"@ != "space"@,
        "shift"@ != "enter"@,
        "alt"@ != "tab"@,
        "esc"@ != "tab"@,
        "esc"@ != "alt"@,
        "left"@ != "ctrl"@,
        "right"@ != "space"@,
        "right"@ != "enter"@,
        "right"@ != "shift"@,
        "down"@ != "ctrl"@,
        "down"@ != "left"@,
        "insert"@ != "delete"@,
        "home"@ != "ctrl"@,
        "home"@ != "left"@,
        "home"@ != "down"@,
        "end"@ != "tab"@,
        "end"@ != "alt"@,
        "end"@ != "esc"@,
        "page_down"@ != "backspace"@,
        "="@ != ";"@,
        ","@ != ";"@,
        ","@ != "="@,
        "-"@ != ";"@,
        "-"@ != "="@,
        "-"@ != ","@,
        "."@ != ";"@,
        "."@ != "="@,
        "."@ != ","@,
        "."@ != "-"@,
        "/"@ != ";"@,
        "/"@ != "="@,
        "/"@ != ","@,
        "/"@ != "-"@,
        "/"@ != "."@,
        "`"@ != ";"@,
        "`"@ != "="@,
        "`"@ != ","@,
        "`"@ != "-"@,
        "`"@ != "."@,
        "`"@ != "/"@,
        "["@ != ";"@,
        "["@ != "="@,
        "["@ != ","@,
        "["@ != "-"@,
        "["@ != "."@,
        "["@ != "/"@,
        "["@ != "`"@,
        "\\"@ != ";"@,
        "\\"@ != "="@,
        "\\"@ != ","@,
        "\\"@ != "-"@,
        "\\"@ != "."@,
        "\\"@ != "/"@,
        "\\"@ != "`"@,
        "\\"@ != "["@,
        "]"@ != ";"@,
        "]"@ != "="@,
        "]"@ != ","@,
        "]"@ != "-"@,
        "]"@ != "."@,
        "]"@ != "/"@,
        "]"@ != "`"@,
        "]"@ != "["@,
        "]"@ != "\\"@,
        "'"@ != ";"@,
        "'"@ != "="@,
        "'"@ != ","@,
        "'"@ != "-"@,
        "'"@ != "."@,
        "'"@ != "/"@,
        "'"@ != "`"@,
        "'"@ != "["@,
        "'"@ != "\\"@,
        "'"@ != "]"@,
{
    reveal_strlit("space");
    reveal_strlit("enter");
    reveal_strlit("backspace");
    reveal_strlit("tab");
    reveal_strlit("shift");
    reveal_strlit("ctrl");
    reveal_strlit("alt");
    reveal_strlit("esc");
    reveal_strlit("left");
    reveal_strlit("up");
    reveal_strlit("right");
    reveal_strlit("down");
    reveal_strlit("delete");
    reveal_strlit("insert");
    reveal_strlit("home");
    reveal_strlit("end");
    reveal_strlit("page_up");
    reveal_strlit("page_down");
    reveal_strlit(";");
    reveal_strlit("=");
    reveal_strlit(",");
    reveal_strlit("-");
    reveal_strlit(".");
    reveal_strlit("/");
    reveal_strlit("`");
    reveal_strlit("[");
    reveal_strlit("\\");
    reveal_strlit("]");
    reveal_strlit("'");
    assert("enter"@[0] != "space"@[0]);
    assert("shift"@[1] != "space"@[1]);
    assert("shift"@[0] != "enter"@[0]);
    assert("alt"@[0] != "tab"@[0]);
    assert("esc"@[0] != "tab"@[0]);
    assert("esc"@[0] != "alt"@[0]);
    assert("left"@[0] != "ctrl"@[0]);
    assert("right"@[0] != "space"@[0]);
    assert("right"@[0] != "enter"@[0]);
    assert("right"@[0] != "shift"@[0]);
    assert("down"@[0] != "ctrl"@[0]);
    assert("down"@[0] != "left"@[0]);
    assert("insert"@[0] != "delete"@[0]);
    assert("home"@[0] != "ctrl"@[0]);
    assert("home"@[0] != "left"@[0]);
    assert("home"@[0] != "down"@[0]);
    assert("end"@[0] != "tab"@[0]);
    assert("end"@[0] != "alt"@[0]);
    assert("end"@[1] != "esc"@[1]);
    assert("page_down"@[0] != "backspace"@[0]);
    assert("="@[0] != ";"@[0]);
    assert(","@[0] != ";"@[0]);
    assert(","@[0] != "="@[0]);
    assert("-"@[0] != ";"@[0]);
    assert("-"@[0] != "="@[0]);
    assert("-"@[0] != ","@[0]);
    assert("."@[0] != ";"@[0]);
    assert("."@[0] != "="@[0]);
    assert("."@[0] != ","@[0]);
    assert("."@[0] != "-"@[0]);
    assert("/"@[0] != ";"@[0]);
    assert("/"@[0] != "="@[0]);
    assert("/"@[0] != ","@[0]);
    assert("/"@[0] != "-"@[0]);
    assert("/"@[0] != "."@[0]);
    assert("`"@[0] != ";"@[0]);
    assert("`"@[0] != "="@[0]);
    assert("`"@[0] != ","@[0]);
    assert("`"@[0] != "-"@[0]);
    assert("`"@[0] != "."@[0]);
    assert("`"@[0] != "/"@[0]);
    assert("["@[0] != ";"@[0]);
    assert("["@[0] != "="@[0]);
    assert("["@[0] != ","@[0]);
    assert("["@[0] != "-"@[0]);
    assert("["@[0] != "."@[0]);
    assert("["@[0] != "/"@[0]);
    assert("["@[0] != "`"@[0]);
    assert("\\"@[0] != ";"@[0]);
    assert("\\"@[0] != "="@[0]);
    assert("\\"@[0] != ","@[0]);
    assert("\\"@[0] != "-"@[0]);
    assert("\\"@[0] != "."@[0]);
    assert("\\"@[0] != "/"@[0]);
    assert("\\"@[0] != "`"@[0]);
    assert("\\"@[0] != "["@[0]);
    assert("]"@[0] != ";"@[0]);
    assert("]"@[0] != "="@[0]);
    assert("]"@[0] != ","@[0]);
    assert("]"@[0] != "-"@[0]);
    assert("]"@[0] != "."@[0]);
    assert("]"@[0] != "/"@[0]);
    assert("]"@[0] != "`"@[0]);
    assert("]"@[0] != "["@[0]);
    assert("]"@[0] != "\\"@[0]);
    assert("'"@[0] != ";"@[0]);
    assert("'"@[0] != "="@[0]);
    assert("'"@[0] != ","@[0]);
    assert("'"@[0] != "-"@[0]);
    assert("'"@[0] != "."@[0]);
    assert("'"@[0] != "/"@[0]);
    assert("'"@[0] != "`"@[0]);
    assert("'"@[0] != "["@[0]);
    assert("'"@[0] != "\\"@[0]);
    assert("'"@[0] != "]"@[0]);
}

proof fn lemma_parse_u16_text(n: nat)
    requires
        n < 0x10000,
    ensures
        parse_u16(nat_text(n)) == Some(n as u16),
{
    lemma_nat_text(n);
    assert(is_digit(nat_text(n)[0]));
}

/// Names up to twelve have at most two digits.
proof fn lemma_short_text(n: nat)
    requires
        n < 100,
    ensures
        nat_text(n).len() <= 2,
{
    if n >= 10 {
        assert(nat_text(n / 10).len() == 1);
    }
}

/// The key-name table reads the same in both directions: the name of every
/// 16-bit virtual-key code maps back to that code.
pub proof fn lemma_key_table_round_trip(vk: u32)
    requires
        vk < 0x10000,
    ensures
        key_code_of(key_name_of(vk)) == Some(vk as u16),
{
    let s = key_name_of(vk);
    if 0x41 <= vk <= 0x5A {
        reveal_strlit("abcdefghijklmnopqrstuvwxyz");
        let i = vk - 0x41;
        assert(s.len() == 1);
        assert(s[0] == "abcdefghijklmnopqrstuvwxyz"@[i]);
        assert("abcdefghijklmnopqrstuvwxyz"@[i] as int == 0x61 + i);
    } else if 0x30 <= vk <= 0x39 {
        reveal_strlit("0123456789");
        let i = vk - 0x30;
        assert(s.len() == 1);
        assert(s[0] == "0123456789"@[i]);
        assert("0123456789"@[i] as int == 0x30 + i);
    } else if 0x70 <= vk <= 0x7B {
        reveal_strlit("f");
        let n = (vk - 0x6F) as nat;
        lemma_nat_text(n);
        lemma_short_text(n);
        lemma_parse_u16_text(n);
        assert(s.drop_first() =~= nat_text(n));
    } else if named_key(vk) is Some {
        lemma_named_keys_distinct();
    } else {
        reveal_strlit("vk_");
        lemma_named_keys_distinct();
        lemma_nat_text(vk as nat);
        lemma_parse_u16_text(vk as nat);
        assert(s[0] == 'v');
        assert(s.take(3) =~= "vk_"@);
        assert(s.skip(3) =~= nat_text(vk as nat));
    }
}

} // verus!
