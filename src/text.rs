use vstd::prelude::*;

verus! {

/// Whether `c` is an ASCII decimal digit.
pub open spec fn is_digit(c: char) -> bool {
    '0' <= c && c <= '9'
}

/// The value of a digit character.
pub open spec fn digit_val(c: char) -> nat {
    (c as nat - '0' as nat) as nat
}

/// The character of a digit value below ten.
pub open spec fn digit_char(d: nat) -> char {
    (d + '0' as nat) as char
}

pub open spec fn all_digits(s: Seq<char>) -> bool {
    forall|i: int| 0 <= i < s.len() ==> is_digit(#[trigger] s[i])
}

/// The number that a run of decimal digits denotes (the empty run denotes 0).
pub open spec fn digits_value(s: Seq<char>) -> nat
    decreases s.len(),
{
    if s.len() == 0 {
        0
    } else {
        10 * digits_value(s.drop_last()) + digit_val(s.last())
    }
}

/// The shortest decimal text of `n`.
pub open spec fn nat_text(n: nat) -> Seq<char>
    decreases n,
{
    if n < 10 {
        seq![digit_char(n)]
    } else {
        nat_text(n / 10).push(digit_char(n % 10))
    }
}

/// The last `k` decimal digits of `n`, padded with zeros.
pub open spec fn fixed_text(n: nat, k: nat) -> Seq<char>
    decreases k,
{
    if k == 0 {
        Seq::empty()
    } else {
        fixed_text(n / 10, (k - 1) as nat).push(digit_char(n % 10))
    }
}

pub open spec fn pow10(k: nat) -> nat
    decreases k,
{
    if k == 0 {
        1
    } else {
        10 * pow10((k - 1) as nat)
    }
}

/// The decimal text of a signed integer: a minus sign for negative values.
pub open spec fn int_text(n: int) -> Seq<char> {
    if n < 0 {
        seq!['-'] + nat_text((-n) as nat)
    } else {
        nat_text(n as nat)
    }
}

/// Reading a signed decimal integer that fits in `i64`: an optional sign,
/// then at least one digit.
pub open spec fn parse_int(s: Seq<char>) -> Option<i64> {
    let neg = s.len() > 0 && s[0] == '-';
    let signed = s.len() > 0 && (s[0] == '-' || s[0] == '+');
    let body = if signed { s.drop_first() } else { s };
    if body.len() == 0 || !all_digits(body) {
        None
    } else if neg {
        if digits_value(body) <= 0x8000_0000_0000_0000 {
            Some((-(digits_value(body) as int)) as i64)
        } else {
            None
        }
    } else {
        if digits_value(body) < 0x8000_0000_0000_0000 {
            Some(digits_value(body) as i64)
        } else {
            None
        }
    }
}

/// Index of the first `c` in `s`, or -1.
pub open spec fn index_of(s: Seq<char>, c: char) -> int
    decreases s.len(),
{
    if s.len() == 0 {
        -1
    } else if s[0] == c {
        0
    } else if index_of(s.drop_first(), c) < 0 {
        -1
    } else {
        1 + index_of(s.drop_first(), c)
    }
}

/// The pieces of `s` between the `sep` characters (at least one piece).
pub open spec fn split_on(s: Seq<char>, sep: char) -> Seq<Seq<char>>
    decreases s.len(),
{
    if s.len() == 0 {
        seq![Seq::empty()]
    } else {
        let p = split_on(s.drop_last(), sep);
        if s.last() == sep {
            p.push(Seq::empty())
        } else {
            p.update(p.len() - 1, p.last().push(s.last()))
        }
    }
}

/// The fields of `s` between the `;` separators (at least one field).
pub open spec fn split_fields(s: Seq<char>) -> Seq<Seq<char>> {
    split_on(s, ';')
}

/// The fields joined with `;` between them.
pub open spec fn join_fields(fs: Seq<Seq<char>>) -> Seq<char>
    decreases fs.len(),
{
    if fs.len() == 0 {
        Seq::empty()
    } else if fs.len() == 1 {
        fs[0]
    } else {
        join_fields(fs.drop_last()) + seq![';'] + fs.last()
    }
}

pub open spec fn is_space(c: char) -> bool {
    c == ' ' || c == '\t' || c == '\n' || c == '\r' || c == '\x0B' || c == '\x0C'
}

pub open spec fn trim_start(s: Seq<char>) -> Seq<char>
    decreases s.len(),
{
    if s.len() > 0 && is_space(s[0]) {
        trim_start(s.drop_first())
    } else {
        s
    }
}

pub open spec fn trim_end(s: Seq<char>) -> Seq<char>
    decreases s.len(),
{
    if s.len() > 0 && is_space(s.last()) {
        trim_end(s.drop_last())
    } else {
        s
    }
}

/// `s` without its leading and trailing white space.
pub open spec fn trim(s: Seq<char>) -> Seq<char> {
    trim_end(trim_start(s))
}

pub proof fn lemma_digit_char(d: nat)
    requires
        d < 10,
    ensures
        digit_val(digit_char(d)) == d,
        is_digit(digit_char(d)),
{
    assert(digit_char(d) as nat == d + 48);
}

pub proof fn lemma_nat_text(n: nat)
    ensures
        all_digits(nat_text(n)),
        nat_text(n).len() > 0,
        digits_value(nat_text(n)) == n,
    decreases n,
{
    if n >= 10 {
        lemma_nat_text(n / 10);
        let t = nat_text(n);
        assert(t.drop_last() =~= nat_text(n / 10));
        lemma_digit_char(n % 10);
        assert(t.last() == digit_char(n % 10));
        assert(digits_value(t) == 10 * digits_value(t.drop_last()) + digit_val(t.last()));
        assert(digits_value(t) == 10 * (n / 10) + n % 10);
        assert(10 * (n / 10) + n % 10 == n);
        assert forall|i: int| 0 <= i < t.len() implies is_digit(#[trigger] t[i]) by {
            if i < t.len() - 1 {
                assert(t[i] == nat_text(n / 10)[i]);
            }
        }
    } else {
        lemma_digit_char(n);
        assert(nat_text(n).drop_last() =~= Seq::<char>::empty());
        assert(digits_value(nat_text(n)) == 10 * digits_value(Seq::<char>::empty()) + digit_val(digit_char(n)));
    }
}

pub proof fn lemma_fixed_text(n: nat, k: nat)
    requires
        n < pow10(k),
    ensures
        all_digits(fixed_text(n, k)),
        fixed_text(n, k).len() == k,
        digits_value(fixed_text(n, k)) == n,
    decreases k,
{
    if k > 0 {
        assert(n / 10 < pow10((k - 1) as nat)) by (nonlinear_arith)
            requires
                n < 10 * pow10((k - 1) as nat),
        ;
        lemma_fixed_text(n / 10, (k - 1) as nat);
        let t = fixed_text(n, k);
        assert(t.drop_last() =~= fixed_text(n / 10, (k - 1) as nat));
        assert forall|i: int| 0 <= i < t.len() implies is_digit(#[trigger] t[i]) by {
            if i < t.len() - 1 {
                assert(t[i] == fixed_text(n / 10, (k - 1) as nat)[i]);
            }
        }
    } else {
        assert(n == 0);
    }
}

/// A prefix of a run of digits denotes no more than the whole run.
pub proof fn lemma_value_prefix(s: Seq<char>, k: int)
    requires
        0 <= k <= s.len(),
    ensures
        digits_value(s.take(k)) <= digits_value(s),
    decreases s.len(),
{
    if k < s.len() {
        lemma_value_prefix(s.drop_last(), k);
        assert(s.drop_last().take(k) =~= s.take(k));
    } else {
        assert(s.take(k) =~= s);
    }
}

pub proof fn lemma_int_text(n: i64)
    ensures
        parse_int(int_text(n as int)) == Some(n),
        int_text(n as int).len() > 0,
        !is_space(int_text(n as int)[0]),
        !is_space(int_text(n as int).last()),
        forall|i: int| 0 <= i < int_text(n as int).len() ==> (#[trigger] int_text(n as int)[i] != ';'
            && int_text(n as int)[i] != '='),
{
    let m: nat = if n < 0 { (-n) as nat } else { n as nat };
    lemma_nat_text(m);
    let t = int_text(n as int);
    let d = nat_text(m);
    if n < 0 {
        assert(t.drop_first() =~= d);
        assert(t.last() == d.last());
        assert forall|i: int| 0 <= i < t.len() implies (#[trigger] t[i] != ';' && t[i] != '=') by {
            if i > 0 {
                assert(t[i] == d[i - 1]);
                assert(is_digit(d[i - 1]));
            }
        }
    } else {
        assert(is_digit(d[0]));
        assert(is_digit(d[d.len() - 1]));
        assert forall|i: int| 0 <= i < t.len() implies (#[trigger] t[i] != ';' && t[i] != '=') by {
            assert(is_digit(d[i]));
        }
    }
}

pub proof fn lemma_index_of_found(s: Seq<char>, c: char, i: int)
    requires
        0 <= i < s.len(),
        s[i] == c,
        forall|j: int| 0 <= j < i ==> s[j] != c,
    ensures
        index_of(s, c) == i,
    decreases s.len(),
{
    if i > 0 {
        lemma_index_of_found(s.drop_first(), c, i - 1);
    }
}

pub proof fn lemma_index_of_absent(s: Seq<char>, c: char)
    requires
        forall|j: int| 0 <= j < s.len() ==> s[j] != c,
    ensures
        index_of(s, c) == -1,
    decreases s.len(),
{
    if s.len() > 0 {
        lemma_index_of_absent(s.drop_first(), c);
    }
}

/// A text without separators is one field.
pub proof fn lemma_split_single(s: Seq<char>)
    requires
        forall|i: int| 0 <= i < s.len() ==> s[i] != ';',
    ensures
        split_fields(s) == seq![s],
    decreases s.len(),
{
    if s.len() > 0 {
        lemma_split_single(s.drop_last());
        assert(s.drop_last().push(s.last()) =~= s);
        assert(split_fields(s) =~= seq![s]);
    } else {
        assert(s =~= Seq::<char>::empty());
        assert(split_fields(s) =~= seq![s]);
    }
}

/// Appending a separator and a field without separators appends one field.
pub proof fn lemma_split_append(a: Seq<char>, b: Seq<char>)
    requires
        forall|i: int| 0 <= i < b.len() ==> b[i] != ';',
    ensures
        split_fields(a + seq![';'] + b) == split_fields(a).push(b),
    decreases b.len(),
{
    let s = a + seq![';'] + b;
    if b.len() == 0 {
        assert(s.drop_last() =~= a);
        assert(s =~= a + seq![';']);
        assert(b =~= Seq::<char>::empty());
    } else {
        lemma_split_append(a, b.drop_last());
        assert(s.drop_last() =~= a + seq![';'] + b.drop_last());
        assert(s.last() == b.last());
        assert(b.drop_last().push(b.last()) =~= b);
        assert(split_fields(s) =~= split_fields(a).push(b));
    }
}

/// Splitting undoes joining when no field holds a separator.
pub proof fn lemma_split_join(fs: Seq<Seq<char>>)
    requires
        fs.len() > 0,
        forall|k: int, i: int| 0 <= k < fs.len() && 0 <= i < fs[k].len() ==> #[trigger] fs[k][i] != ';',
    ensures
        split_fields(join_fields(fs)) == fs,
    decreases fs.len(),
{
    if fs.len() == 1 {
        assert forall|i: int| 0 <= i < fs[0].len() implies fs[0][i] != ';' by {
            assert(fs[0][i] != ';');
        }
        lemma_split_single(fs[0]);
        assert(seq![fs[0]] =~= fs);
    } else {
        let p = fs.drop_last();
        assert forall|k: int, i: int| 0 <= k < p.len() && 0 <= i < p[k].len() implies #[trigger] p[k][i] != ';' by {
            assert(p[k] == fs[k]);
            assert(fs[k][i] != ';');
        }
        lemma_split_join(p);
        let l = fs.last();
        assert forall|i: int| 0 <= i < l.len() implies l[i] != ';' by {
            assert(fs[fs.len() - 1][i] != ';');
        }
        lemma_split_append(join_fields(p), l);
        assert(p.push(l) =~= fs);
    }
}

pub proof fn lemma_trim_start_skip(s: Seq<char>, i: int)
    requires
        0 <= i <= s.len(),
        forall|j: int| 0 <= j < i ==> is_space(s[j]),
    ensures
        trim_start(s) == trim_start(s.skip(i)),
    decreases i,
{
    if i > 0 {
        lemma_trim_start_skip(s.drop_first(), i - 1);
        assert(s.drop_first().skip(i - 1) =~= s.skip(i));
    } else {
        assert(s.skip(0) =~= s);
    }
}

pub proof fn lemma_trim_end_take(s: Seq<char>, i: int)
    requires
        0 <= i <= s.len(),
        forall|j: int| i <= j < s.len() ==> is_space(s[j]),
    ensures
        trim_end(s) == trim_end(s.take(i)),
    decreases s.len() - i,
{
    if i < s.len() {
        lemma_trim_end_take(s.drop_last(), i);
        assert(s.drop_last().take(i) =~= s.take(i));
    } else {
        assert(s.take(i) =~= s);
    }
}


pub proof fn lemma_pow10_mono(a: nat, b: nat)
    requires
        a <= b,
    ensures
        1 <= pow10(a) <= pow10(b),
    decreases b,
{
    if b > a {
        lemma_pow10_mono(a, (b - 1) as nat);
    } else if a > 0 {
        lemma_pow10_mono((a - 1) as nat, (b - 1) as nat);
    }
}

pub proof fn lemma_pow10_six()
    ensures
        pow10(6) == 1_000_000,
{
    reveal_with_fuel(pow10, 7);
}

/// A run of `n` digits denotes less than `10^n`.
pub proof fn lemma_value_bound(s: Seq<char>)
    requires
        all_digits(s),
    ensures
        digits_value(s) < pow10(s.len()),
    decreases s.len(),
{
    if s.len() > 0 {
        let t = s.drop_last();
        assert(all_digits(t)) by {
            assert forall|i: int| 0 <= i < t.len() implies is_digit(#[trigger] t[i]) by {
                assert(t[i] == s[i]);
            }
        }
        lemma_value_bound(t);
        assert(is_digit(s[s.len() - 1]));
        let a = digits_value(t);
        let d = digit_val(s.last());
        let p = pow10(t.len());
        assert(10 * a + d < 10 * p) by (nonlinear_arith)
            requires
                a < p,
                d < 10,
        ;
    }
}

/// Joining one more field adds a separator and the field.
pub proof fn lemma_join_push(fs: Seq<Seq<char>>, f: Seq<char>)
    requires
        fs.len() > 0,
    ensures
        join_fields(fs.push(f)) == join_fields(fs) + seq![';'] + f,
{
    assert(fs.push(f).drop_last() =~= fs);
}

// ---- executable helpers over a character buffer ----

/// Whether every character of `v[a..b]` is a digit.
pub fn all_digits_span(v: &Vec<char>, a: usize, b: usize) -> (r: bool)
    requires
        a <= b <= v@.len(),
    ensures
        r == all_digits(v@.subrange(a as int, b as int)),
{
    let ghost s = v@.subrange(a as int, b as int);
    let mut i: usize = a;
    while i < b
        invariant
            a <= i <= b <= v@.len(),
            s == v@.subrange(a as int, b as int),
            forall|j: int| 0 <= j < i - a ==> is_digit(s[j]),
        decreases b - i,
    {
        let c = v[i];
        if !('0' <= c && c <= '9') {
            assert(s[i - a] == c);
            return false;
        }
        i = i + 1;
    }
    true
}

/// Appends a field separator.
pub fn write_sep(out: &mut String)
    ensures
        final(out)@ == old(out)@ + seq![';'],
{
    out.append(";");
    proof {
        reveal_strlit(";");
    }
}


/// The characters of `s`, one per element.
pub fn chars_of(s: &str) -> (r: Vec<char>)
    ensures
        r@ == s@,
{
    let n = s.unicode_len();
    let mut r: Vec<char> = Vec::new();
    let mut i: usize = 0;
    while i < n
        invariant
            n == s@.len(),
            i <= n,
            r@ == s@.take(i as int),
        decreases n - i,
    {
        r.push(s.get_char(i));
        i = i + 1;
        assert(r@ =~= s@.take(i as int));
    }
    assert(r@ =~= s@);
    r
}

/// Whether the characters `v[a..b]` spell `lit`.
pub fn span_eq(v: &Vec<char>, a: usize, b: usize, lit: &str) -> (r: bool)
    requires
        a <= b <= v@.len(),
    ensures
        r == (v@.subrange(a as int, b as int) == lit@),
{
    let n = lit.unicode_len();
    if b - a != n {
        return false;
    }
    let mut i: usize = 0;
    while i < n
        invariant
            n == lit@.len(),
            b - a == n,
            a <= b <= v@.len(),
            i <= n,
            forall|j: int| 0 <= j < i ==> v@[a + j] == lit@[j],
        decreases n - i,
    {
        if v[a + i] != lit.get_char(i) {
            assert(v@.subrange(a as int, b as int)[i as int] != lit@[i as int]);
            return false;
        }
        i = i + 1;
    }
    assert(v@.subrange(a as int, b as int) =~= lit@);
    true
}

/// Position of the first `c` in `v[a..b]`, or `b` when there is none.
pub fn find_char(v: &Vec<char>, a: usize, b: usize, c: char) -> (r: usize)
    requires
        a <= b <= v@.len(),
    ensures
        a <= r <= b,
        r < b ==> index_of(v@.subrange(a as int, b as int), c) == r - a,
        r == b ==> index_of(v@.subrange(a as int, b as int), c) == -1,
{
    let ghost s = v@.subrange(a as int, b as int);
    let mut i: usize = a;
    while i < b
        invariant
            a <= i <= b <= v@.len(),
            s == v@.subrange(a as int, b as int),
            forall|j: int| 0 <= j < i - a ==> s[j] != c,
        decreases b - i,
    {
        if v[i] == c {
            proof {
                lemma_index_of_found(s, c, i - a);
            }
            return i;
        }
        i = i + 1;
    }
    proof {
        lemma_index_of_absent(s, c);
    }
    b
}

/// Reads `v[a..b]` as a run of decimal digits whose value is below `limit`.
pub fn parse_digits(v: &Vec<char>, a: usize, b: usize, limit: u128) -> (r: Option<u128>)
    requires
        a <= b <= v@.len(),
        limit <= 0x1_0000_0000_0000_0000_0000,
    ensures
        ({
            let s = v@.subrange(a as int, b as int);
            r == if all_digits(s) && digits_value(s) < limit {
                Some(digits_value(s) as u128)
            } else {
                None
            }
        }),
{
    let ghost s = v@.subrange(a as int, b as int);
    let mut acc: u128 = 0;
    let mut i: usize = a;
    if limit == 0 {
        return None;
    }
    while i < b
        invariant
            a <= i <= b <= v@.len(),
            s == v@.subrange(a as int, b as int),
            limit <= 0x1_0000_0000_0000_0000_0000,
            all_digits(s.take(i - a)),
            acc == digits_value(s.take(i - a)),
            acc < limit,
        decreases b - i,
    {
        let c = v[i];
        let ghost t = s.take(i - a + 1);
        assert(t.drop_last() =~= s.take(i - a));
        if !('0' <= c && c <= '9') {
            assert(s[i - a] == c);
            return None;
        }
        acc = acc * 10 + (c as u32 - '0' as u32) as u128;
        i = i + 1;
        assert forall|j: int| 0 <= j < t.len() implies is_digit(#[trigger] t[j]) by {
            if j < t.len() - 1 {
                assert(t[j] == s.take(i - a - 1)[j]);
            }
        }
        if acc >= limit {
            proof {
                if all_digits(s) {
                    lemma_value_prefix(s, i - a);
                }
            }
            return None;
        }
    }
    assert(s.take(b - a) =~= s);
    Some(acc)
}

/// Reads `v[a..b]` as a signed decimal integer.
pub fn parse_int_span(v: &Vec<char>, a: usize, b: usize) -> (r: Option<i64>)
    requires
        a <= b <= v@.len(),
    ensures
        r == parse_int(v@.subrange(a as int, b as int)),
{
    let ghost s = v@.subrange(a as int, b as int);
    if a == b {
        return None;
    }
    let first = v[a];
    let neg = first == '-';
    let start: usize = if first == '-' || first == '+' { a + 1 } else { a };
    assert(v@.subrange(start as int, b as int) =~= (if first == '-' || first == '+' { s.drop_first() } else { s }));
    if start == b {
        return None;
    }
    if neg {
        match parse_digits(v, start, b, 0x8000_0000_0000_0001) {
            Some(m) => {
                let r = (0i128 - m as i128) as i64;
                Some(r)
            },
            None => None,
        }
    } else {
        match parse_digits(v, start, b, 0x8000_0000_0000_0000) {
            Some(m) => Some(m as i64),
            None => None,
        }
    }
}

fn digit_str(d: u64) -> (r: &'static str)
    requires
        d < 10,
    ensures
        r@ == seq![digit_char(d as nat)],
{
    match d {
        0 => { proof { reveal_strlit("0"); } "0" },
        1 => { proof { reveal_strlit("1"); } "1" },
        2 => { proof { reveal_strlit("2"); } "2" },
        3 => { proof { reveal_strlit("3"); } "3" },
        4 => { proof { reveal_strlit("4"); } "4" },
        5 => { proof { reveal_strlit("5"); } "5" },
        6 => { proof { reveal_strlit("6"); } "6" },
        7 => { proof { reveal_strlit("7"); } "7" },
        8 => { proof { reveal_strlit("8"); } "8" },
        _ => { proof { reveal_strlit("9"); } "9" },
    }
}

/// Appends the decimal text of `n`.
pub fn write_nat(out: &mut String, n: u64)
    ensures
        final(out)@ == old(out)@ + nat_text(n as nat),
    decreases n,
{
    if n >= 10 {
        write_nat(out, n / 10);
    }
    out.append(digit_str(n % 10));
    proof {
        if n >= 10 {
            assert(final(out)@ =~= old(out)@ + nat_text(n as nat));
        } else {
            assert(final(out)@ =~= old(out)@ + nat_text(n as nat));
        }
    }
}

/// Appends the last `k` decimal digits of `n`, padded with zeros.
pub fn write_fixed(out: &mut String, n: u64, k: u64)
    ensures
        final(out)@ == old(out)@ + fixed_text(n as nat, k as nat),
    decreases k,
{
    if k > 0 {
        write_fixed(out, n / 10, k - 1);
        out.append(digit_str(n % 10));
        assert(final(out)@ =~= old(out)@ + fixed_text(n as nat, k as nat));
    } else {
        assert(final(out)@ =~= old(out)@ + fixed_text(n as nat, k as nat));
    }
}

/// Appends the decimal text of a signed integer.
pub fn write_int(out: &mut String, n: i64)
    ensures
        final(out)@ == old(out)@ + int_text(n as int),
{
    if n < 0 {
        out.append("-");
        proof { reveal_strlit("-"); }
        let m: u64 = (0i128 - n as i128) as u64;
        write_nat(out, m);
        assert(final(out)@ =~= old(out)@ + int_text(n as int));
    } else {
        write_nat(out, n as u64);
    }
}

} // verus!
