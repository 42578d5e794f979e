//! Character-level building blocks of the ASCII command protocol: decimal and
//! hexadecimal numerals, whitespace trimming and comma-separated fields, each
//! with the spec function it implements and the lemmas the codec's round-trip
//! proof needs.
use vstd::prelude::*;
use vstd::string::*;

verus! {

// ---------------------------------------------------------------------------
// Characters
// ---------------------------------------------------------------------------

/// Unicode `White_Space` code points (what `char::is_whitespace` accepts).
pub open spec fn is_space(c: char) -> bool {
    let u = c as u32;
    (0x09 <= u && u <= 0x0d) || u == 0x20 || u == 0x85 || u == 0xa0 || u == 0x1680
        || (0x2000 <= u && u <= 0x200a) || u == 0x2028 || u == 0x2029 || u == 0x202f
        || u == 0x205f || u == 0x3000
}

pub open spec fn is_digit(c: char) -> bool {
    0x30 <= (c as u32) && (c as u32) <= 0x39
}

pub open spec fn digit_value(c: char) -> int {
    (c as u32) - 0x30
}

/// Value of a hexadecimal digit (either case), or -1.
pub open spec fn hex_value(c: char) -> int {
    let u = c as u32;
    if 0x30 <= u && u <= 0x39 {
        u - 0x30
    } else if 0x41 <= u && u <= 0x46 {
        u - 0x41 + 10
    } else if 0x61 <= u && u <= 0x66 {
        u - 0x61 + 10
    } else {
        -1
    }
}

/// Upper-case hexadecimal digit for `d` in 0..16 (decimal digit below 10).
pub open spec fn digit_char(d: int) -> char {
    if d == 0 { '0' }
    else if d == 1 { '1' }
    else if d == 2 { '2' }
    else if d == 3 { '3' }
    else if d == 4 { '4' }
    else if d == 5 { '5' }
    else if d == 6 { '6' }
    else if d == 7 { '7' }
    else if d == 8 { '8' }
    else if d == 9 { '9' }
    else if d == 10 { 'A' }
    else if d == 11 { 'B' }
    else if d == 12 { 'C' }
    else if d == 13 { 'D' }
    else if d == 14 { 'E' }
    else { 'F' }
}

fn digit_char_exec(d: u32) -> (c: char)
    requires
        d < 16,
    ensures
        c == digit_char(d as int),
{
    match d {
        0 => '0',
        1 => '1',
        2 => '2',
        3 => '3',
        4 => '4',
        5 => '5',
        6 => '6',
        7 => '7',
        8 => '8',
        9 => '9',
        10 => 'A',
        11 => 'B',
        12 => 'C',
        13 => 'D',
        14 => 'E',
        _ => 'F',
    }
}

// ---------------------------------------------------------------------------
// Numerals
// ---------------------------------------------------------------------------

/// Shortest digits of `n` in base 16 (when `hex`) or base 10, most
/// significant first.
pub open spec fn numeral(n: nat, hex: bool) -> Seq<char>
    decreases n,
{
    if hex {
        if n < 16 {
            seq![digit_char(n as int)]
        } else {
            numeral(n / 16, hex).push(digit_char((n % 16) as int))
        }
    } else {
        if n < 10 {
            seq![digit_char(n as int)]
        } else {
            numeral(n / 10, hex).push(digit_char((n % 10) as int))
        }
    }
}

/// Base-10 text of an integer, with a leading `-` when negative.
pub open spec fn decimal_text(v: int) -> Seq<char> {
    if v < 0 {
        seq!['-'] + numeral((-v) as nat, false)
    } else {
        numeral(v as nat, false)
    }
}

/// Value of a run of decimal digits.
pub open spec fn decimal_value(s: Seq<char>) -> int
    decreases s.len(),
{
    if s.len() == 0 {
        0
    } else {
        decimal_value(s.drop_last()) * 10 + digit_value(s.last())
    }
}

/// Value of a run of hexadecimal digits.
pub open spec fn hex_run_value(s: Seq<char>) -> int
    decreases s.len(),
{
    if s.len() == 0 {
        0
    } else {
        hex_run_value(s.drop_last()) * 16 + hex_value(s.last())
    }
}

pub open spec fn all_digits(s: Seq<char>) -> bool {
    forall|i: int| 0 <= i < s.len() ==> is_digit(#[trigger] s[i])
}

pub open spec fn all_hex(s: Seq<char>) -> bool {
    forall|i: int| 0 <= i < s.len() ==> #[trigger] hex_value(s[i]) >= 0
}

/// What `str::parse::<i32>` yields: an optional sign, then at least one
/// decimal digit, with the value in `i32`'s range.
pub open spec fn parse_i32_spec(s: Seq<char>) -> Option<i32> {
    let neg = s.len() > 0 && s[0] == '-';
    let signed = s.len() > 0 && (s[0] == '-' || s[0] == '+');
    let body = if signed { s.drop_first() } else { s };
    let v = if neg { -decimal_value(body) } else { decimal_value(body) };
    if body.len() > 0 && all_digits(body) && i32::MIN <= v && v <= i32::MAX {
        Some(v as i32)
    } else {
        None
    }
}

/// What `u8::from_str_radix(s, 16)` yields: an optional `+`, then at least
/// one hexadecimal digit, with the value at most 255.
pub open spec fn parse_hex_u8_spec(s: Seq<char>) -> Option<u8> {
    let body = if s.len() > 0 && s[0] == '+' { s.drop_first() } else { s };
    let v = hex_run_value(body);
    if body.len() > 0 && all_hex(body) && v <= 255 {
        Some(v as u8)
    } else {
        None
    }
}

// ---------------------------------------------------------------------------
// Trimming and fields
// ---------------------------------------------------------------------------

pub open spec fn trim_start(s: Seq<char>) -> Seq<char>
    decreases s.len(),
{
    if s.len() > 0 && is_space(s[0]) {
        trim_start(s.drop_first())
    } else {
        s
    }
}

pub open spec fn trim_end(s: Seq<char>) -> Seq<char>
    decreases s.len(),
{
    if s.len() > 0 && is_space(s.last()) {
        trim_end(s.drop_last())
    } else {
        s
    }
}

/// `s` without leading and trailing whitespace (as `str::trim`).
pub open spec fn trim(s: Seq<char>) -> Seq<char> {
    trim_end(trim_start(s))
}

/// Index of the first `c` in `s`, or `s.len()` when there is none.
pub open spec fn find_char(s: Seq<char>, c: char) -> int
    decreases s.len(),
{
    if s.len() == 0 {
        0
    } else if s[0] == c {
        0
    } else {
        1 + find_char(s.drop_first(), c)
    }
}

/// The comma-separated fields of `s` that parse as `i32` (each trimmed),
/// in order; fields that do not parse are skipped.
pub open spec fn parse_fields_spec(s: Seq<char>) -> Seq<i32>
    decreases s.len(),
{
    let k = find_char(s, ',');
    let tail = if 0 <= k < s.len() {
        parse_fields_spec(s.subrange(k + 1, s.len() as int))
    } else {
        Seq::<i32>::empty()
    };
    match parse_i32_spec(trim(s.subrange(0, k))) {
        Some(v) => seq![v] + tail,
        None => tail,
    }
}

// ---------------------------------------------------------------------------
// Executable helpers
// ---------------------------------------------------------------------------

/// Relies on `String::push`: the character is appended at the end.
#[verifier::external_body]
pub(crate) fn push_char(s: &mut String, c: char)
    ensures
        final(s)@ == old(s)@.push(c),
{
    s.push(c);
}

/// Appends the digits of `n` in base 16 (when `hex`) or base 10.
pub(crate) fn push_numeral(s: &mut String, n: u32, hex: bool)
    ensures
        final(s)@ == old(s)@ + numeral(n as nat, hex),
    decreases n,
{
    let b: u32 = if hex { 16 } else { 10 };
    if n >= b {
        push_numeral(s, n / b, hex);
    }
    let c = digit_char_exec(n % b);
    push_char(s, c);
    assert(final(s)@ =~= old(s)@ + numeral(n as nat, hex));
}

/// Appends the base-10 text of `v`.
pub(crate) fn push_decimal(s: &mut String, v: i32)
    ensures
        final(s)@ == old(s)@ + decimal_text(v as int),
{
    if v < 0 {
        push_char(s, '-');
        let m: u32 = if v == i32::MIN { 2147483648u32 } else { (-v) as u32 };
        push_numeral(s, m, false);
        assert(final(s)@ =~= old(s)@ + decimal_text(v as int));
    } else {
        push_numeral(s, v as u32, false);
    }
}

/// Appends every character of `t`.
pub(crate) fn push_str(s: &mut String, t: &str)
    ensures
        final(s)@ == old(s)@ + t@,
{
    s.append(t);
}

/// The characters of `s`, one per element.
pub fn chars_of(s: &str) -> (r: Vec<char>)
    ensures
        r@ == s@,
{
    let n = s.unicode_len();
    let mut r: Vec<char> = Vec::new();
    let mut i: usize = 0;
    while i < n
        invariant
            n == s@.len(),
            i <= n,
            r@ == s@.subrange(0, i as int),
        decreases n - i,
    {
        let c = s.get_char(i);
        r.push(c);
        i = i + 1;
        assert(r@ =~= s@.subrange(0, i as int));
    }
    assert(r@ =~= s@);
    r
}

pub(crate) fn is_space_exec(c: char) -> (r: bool)
    ensures
        r == is_space(c),
{
    let u = c as u32;
    (0x09 <= u && u <= 0x0d) || u == 0x20 || u == 0x85 || u == 0xa0 || u == 0x1680
        || (0x2000 <= u && u <= 0x200a) || u == 0x2028 || u == 0x2029 || u == 0x202f
        || u == 0x205f || u == 0x3000
}

proof fn lemma_trim_start_skip(s: Seq<char>, i: int)
    requires
        0 <= i < s.len(),
        is_space(s[i]),
    ensures
        trim_start(s.subrange(i, s.len() as int)) == trim_start(s.subrange(i + 1, s.len() as int)),
{
    assert(s.subrange(i, s.len() as int).drop_first() =~= s.subrange(i + 1, s.len() as int));
}

proof fn lemma_trim_end_skip(s: Seq<char>, j: int)
    requires
        0 < j <= s.len(),
        is_space(s[j - 1]),
    ensures
        trim_end(s.subrange(0, j)) == trim_end(s.subrange(0, j - 1)),
{
    assert(s.subrange(0, j).drop_last() =~= s.subrange(0, j - 1));
}

/// Bounds `(a, b)` such that `v[a..b]` is `v[lo..hi]` trimmed.
pub(crate) fn trim_bounds(v: &Vec<char>, lo: usize, hi: usize) -> (r: (usize, usize))
    requires
        lo <= hi <= v@.len(),
    ensures
        lo <= r.0 <= r.1 <= hi,
        v@.subrange(r.0 as int, r.1 as int) == trim(v@.subrange(lo as int, hi as int)),
{
    let ghost s = v@;
    let mut a = lo;
    while a < hi && is_space_exec(v[a])
        invariant
            lo <= a <= hi <= s.len(),
            s == v@,
            trim_start(s.subrange(lo as int, hi as int)) == trim_start(s.subrange(a as int, hi as int)),
        decreases hi - a,
    {
        proof {
            let t = s.subrange(lo as int, hi as int);
            assert(s.subrange(a as int, hi as int) =~= t.subrange(a - lo, t.len() as int));
            assert(s.subrange(a as int + 1, hi as int) =~= t.subrange(a - lo + 1, t.len() as int));
            lemma_trim_start_skip(t, a - lo);
        }
        a = a + 1;
    }
    proof {
        let u = s.subrange(a as int, hi as int);
        assert(trim_start(u) == u);
    }
    let mut b = hi;
    while b > a && is_space_exec(v[b - 1])
        invariant
            lo <= a <= b <= hi <= s.len(),
            s == v@,
            trim_end(s.subrange(a as int, hi as int)) == trim_end(s.subrange(a as int, b as int)),
        decreases b - a,
    {
        proof {
            let t = s.subrange(a as int, hi as int);
            assert(s.subrange(a as int, b as int) =~= t.subrange(0, b - a));
            assert(s.subrange(a as int, b - 1) =~= t.subrange(0, b - a - 1));
            lemma_trim_end_skip(t, b - a);
        }
        b = b - 1;
    }
    proof {
        let u = s.subrange(a as int, b as int);
        assert(trim_end(u) == u);
    }
    (a, b)
}

/// Index of the first `c` in `v[lo..hi]`, relative to the start of `v`; `hi`
/// when there is none.
pub(crate) fn find_char_in(v: &Vec<char>, lo: usize, hi: usize, c: char) -> (k: usize)
    requires
        lo <= hi <= v@.len(),
    ensures
        lo <= k <= hi,
        k - lo == find_char(v@.subrange(lo as int, hi as int), c),
{
    let ghost s = v@;
    let mut k = lo;
    while k < hi && v[k] != c
        invariant
            lo <= k <= hi <= s.len(),
            s == v@,
            find_char(s.subrange(lo as int, hi as int), c)
                == (k - lo) + find_char(s.subrange(k as int, hi as int), c),
        decreases hi - k,
    {
        assert(s.subrange(k as int, hi as int).drop_first() =~= s.subrange(k + 1, hi as int));
        k = k + 1;
    }
    k
}

proof fn lemma_decimal_value_step(s: Seq<char>, i: int)
    requires
        0 <= i < s.len(),
    ensures
        decimal_value(s.subrange(0, i + 1)) == decimal_value(s.subrange(0, i)) * 10 + digit_value(s[i]),
{
    assert(s.subrange(0, i + 1).drop_last() =~= s.subrange(0, i));
}

proof fn lemma_hex_value_step(s: Seq<char>, i: int)
    requires
        0 <= i < s.len(),
    ensures
        hex_run_value(s.subrange(0, i + 1)) == hex_run_value(s.subrange(0, i)) * 16 + hex_value(s[i]),
{
    assert(s.subrange(0, i + 1).drop_last() =~= s.subrange(0, i));
}

proof fn lemma_decimal_monotone(s: Seq<char>, i: int)
    requires
        0 <= i <= s.len(),
        all_digits(s),
    ensures
        decimal_value(s) >= decimal_value(s.subrange(0, i)),
        decimal_value(s.subrange(0, i)) >= 0,
    decreases s.len() - i,
{
    if i < s.len() {
        lemma_decimal_value_step(s, i);
        assert(all_digits(s.subrange(0, i + 1)));
        lemma_decimal_monotone(s, i + 1);
        lemma_decimal_nonneg(s.subrange(0, i));
    } else {
        assert(s.subrange(0, i) =~= s);
        lemma_decimal_nonneg(s);
    }
}

proof fn lemma_decimal_nonneg(s: Seq<char>)
    requires
        all_digits(s),
    ensures
        decimal_value(s) >= 0,
    decreases s.len(),
{
    if s.len() > 0 {
        assert(all_digits(s.drop_last()));
        lemma_decimal_nonneg(s.drop_last());
    }
}

proof fn lemma_hex_monotone(s: Seq<char>, i: int)
    requires
        0 <= i <= s.len(),
        all_hex(s),
    ensures
        hex_run_value(s) >= hex_run_value(s.subrange(0, i)),
        hex_run_value(s.subrange(0, i)) >= 0,
    decreases s.len() - i,
{
    if i < s.len() {
        lemma_hex_value_step(s, i);
        assert(all_hex(s.subrange(0, i + 1)));
        lemma_hex_monotone(s, i + 1);
        lemma_hex_nonneg(s.subrange(0, i));
    } else {
        assert(s.subrange(0, i) =~= s);
        lemma_hex_nonneg(s);
    }
}

proof fn lemma_hex_nonneg(s: Seq<char>)
    requires
        all_hex(s),
    ensures
        hex_run_value(s) >= 0,
    decreases s.len(),
{
    if s.len() > 0 {
        assert(all_hex(s.drop_last()));
        lemma_hex_nonneg(s.drop_last());
    }
}

/// `parse_i32_spec` of `v[lo..hi]`.
pub(crate) fn parse_i32_in(v: &Vec<char>, lo: usize, hi: usize) -> (r: Option<i32>)
    requires
        lo <= hi <= v@.len(),
    ensures
        r == parse_i32_spec(v@.subrange(lo as int, hi as int)),
{
    let ghost s = v@.subrange(lo as int, hi as int);
    let neg = lo < hi && v[lo] == '-';
    let signed = lo < hi && (v[lo] == '-' || v[lo] == '+');
    let start = if signed { lo + 1 } else { lo };
    let ghost body = if signed { s.drop_first() } else { s };
    assert(lo < hi ==> s[0] == v@[lo as int]);
    assert(signed == (s.len() > 0 && (s[0] == '-' || s[0] == '+')));
    assert(neg == (s.len() > 0 && s[0] == '-'));
    assert(body =~= v@.subrange(start as int, hi as int));
    if start == hi {
        return None;
    }
    // Magnitude limit: 2^31 for a negative number, 2^31 - 1 otherwise.
    let limit: u64 = if neg { 2147483648u64 } else { 2147483647u64 };
    let mut acc: u64 = 0;
    let mut i = start;
    while i < hi
        invariant
            lo <= start <= i <= hi <= v@.len(),
            body =~= v@.subrange(start as int, hi as int),
            all_digits(body.subrange(0, i - start)),
            acc as int == decimal_value(body.subrange(0, i - start)),
            acc <= limit,
            limit == if neg { 2147483648u64 } else { 2147483647u64 },
            neg == (s.len() > 0 && s[0] == '-'),
            s == v@.subrange(lo as int, hi as int),
            signed == (s.len() > 0 && (s[0] == '-' || s[0] == '+')),
            body == (if signed { s.drop_first() } else { s }),
        decreases hi - i,
    {
        let c = v[i];
        let u = c as u32;
        if u < 0x30 || u > 0x39 {
            assert(body[i - start] == c);
            assert(!is_digit(body[i - start]));
            return None;
        }
        proof {
            lemma_decimal_value_step(body, i - start);
            assert(body[i - start] == c);
        }
        acc = acc * 10 + (u - 0x30) as u64;
        i = i + 1;
        assert(all_digits(body.subrange(0, i - start)));
        if acc > limit {
            proof {
                let k = i - start;
                if all_digits(body) {
                    lemma_decimal_monotone(body, k);
                    assert(decimal_value(body) > limit);
                }
            }
            return None;
        }
    }
    assert(body.subrange(0, i - start) =~= body);
    if neg {
        Some((0i64 - acc as i64) as i32)
    } else {
        Some(acc as i32)
    }
}

/// `parse_hex_u8_spec` of `v[lo..hi]`.
pub(crate) fn parse_hex_u8_in(v: &Vec<char>, lo: usize, hi: usize) -> (r: Option<u8>)
    requires
        lo <= hi <= v@.len(),
    ensures
        r == parse_hex_u8_spec(v@.subrange(lo as int, hi as int)),
{
    let ghost s = v@.subrange(lo as int, hi as int);
    let plus = lo < hi && v[lo] == '+';
    let start = if plus { lo + 1 } else { lo };
    let ghost body = if plus { s.drop_first() } else { s };
    assert(lo < hi ==> s[0] == v@[lo as int]);
    assert(plus == (s.len() > 0 && s[0] == '+'));
    assert(body =~= v@.subrange(start as int, hi as int));
    if start == hi {
        return None;
    }
    let mut acc: u32 = 0;
    let mut i = start;
    while i < hi
        invariant
            lo <= start <= i <= hi <= v@.len(),
            body =~= v@.subrange(start as int, hi as int),
            all_hex(body.subrange(0, i - start)),
            acc as int == hex_run_value(body.subrange(0, i - start)),
            acc <= 255,
            s == v@.subrange(lo as int, hi as int),
            plus == (s.len() > 0 && s[0] == '+'),
            body == (if plus { s.drop_first() } else { s }),
        decreases hi - i,
    {
        let u = v[i] as u32;
        let d: u32 = if 0x30 <= u && u <= 0x39 {
            u - 0x30
        } else if 0x41 <= u && u <= 0x46 {
            u - 0x41 + 10
        } else if 0x61 <= u && u <= 0x66 {
            u - 0x61 + 10
        } else {
            assert(body[i - start] == v@[i as int]);
            assert(hex_value(body[i - start]) < 0);
            return None;
        };
        proof {
            lemma_hex_value_step(body, i - start);
            assert(body[i - start] == v@[i as int]);
        }
        acc = acc * 16 + d;
        i = i + 1;
        assert(all_hex(body.subrange(0, i - start)));
        if acc > 255 {
            proof {
                if all_hex(body) {
                    lemma_hex_monotone(body, i - start);
                    assert(hex_run_value(body) > 255);
                }
            }
            return None;
        }
    }
    assert(body.subrange(0, i - start) =~= body);
    Some(acc as u8)
}

/// `parse_fields_spec` of `v[lo..hi]`.
pub(crate) fn parse_fields_in(v: &Vec<char>, lo: usize, hi: usize) -> (r: Vec<i32>)
    requires
        lo <= hi <= v@.len(),
    ensures
        r@ == parse_fields_spec(v@.subrange(lo as int, hi as int)),
{
    let ghost s = v@;
    let mut out: Vec<i32> = Vec::new();
    let mut pos = lo;
    loop
        invariant
            lo <= pos <= hi <= s.len(),
            s == v@,
            out@ + parse_fields_spec(s.subrange(pos as int, hi as int))
                == parse_fields_spec(s.subrange(lo as int, hi as int)),
        decreases hi - pos,
    {
        let ghost t = s.subrange(pos as int, hi as int);
        let k = find_char_in(v, pos, hi, ',');
        let (a, b) = trim_bounds(v, pos, k);
        let parsed = parse_i32_in(v, a, b);
        proof {
            assert(t.subrange(0, k - pos) =~= s.subrange(pos as int, k as int));
            if k < hi {
                assert(t.subrange(k - pos + 1, t.len() as int) =~= s.subrange(k + 1, hi as int));
            }
        }
        let ghost old_out = out@;
        match parsed {
            Some(x) => {
                out.push(x);
            },
            None => {},
        }
        if k == hi {
            assert(out@ =~= parse_fields_spec(s.subrange(lo as int, hi as int)));
            return out;
        }
        proof {
            assert(out@ + parse_fields_spec(s.subrange(k + 1, hi as int)) =~= old_out
                + parse_fields_spec(t));
        }
        pos = k + 1;
    }
}

// ---------------------------------------------------------------------------
// Comma-prefixed argument lists and their round trip
// ---------------------------------------------------------------------------

/// `,a0,a1,...` for the integers of `xs`, each in base 10.
pub open spec fn commas_text(xs: Seq<i32>) -> Seq<char>
    decreases xs.len(),
{
    if xs.len() == 0 {
        Seq::<char>::empty()
    } else {
        commas_text(xs.drop_last()) + seq![','] + decimal_text(xs.last() as int)
    }
}

/// Appends `,v` for every `v` of `xs`.
pub(crate) fn push_commas(s: &mut String, xs: &[i32])
    ensures
        final(s)@ == old(s)@ + commas_text(xs@),
{
    let mut i: usize = 0;
    while i < xs.len()
        invariant
            i <= xs@.len(),
            s@ == old(s)@ + commas_text(xs@.subrange(0, i as int)),
        decreases xs@.len() - i,
    {
        let ghost before = s@;
        push_char(s, ',');
        push_decimal(s, xs[i]);
        proof {
            let ys = xs@.subrange(0, i + 1);
            assert(ys.drop_last() =~= xs@.subrange(0, i as int));
            assert(s@ =~= old(s)@ + commas_text(ys));
        }
        i = i + 1;
    }
    assert(xs@.subrange(0, xs@.len() as int) =~= xs@);
}

proof fn lemma_digit_char(d: int)
    requires
        0 <= d < 16,
    ensures
        hex_value(digit_char(d)) == d,
        d < 10 ==> is_digit(digit_char(d)) && digit_value(digit_char(d)) == d,
{
}

pub proof fn lemma_numeral_digits(n: nat, hex: bool)
    ensures
        numeral(n, hex).len() > 0,
        forall|i: int| 0 <= i < numeral(n, hex).len() ==> hex_value(#[trigger] numeral(n, hex)[i]) >= 0,
        !hex ==> all_digits(numeral(n, hex)),
        hex ==> hex_run_value(numeral(n, hex)) == n,
        !hex ==> decimal_value(numeral(n, hex)) == n,
    decreases n,
{
    let b: nat = if hex { 16 } else { 10 };
    let s = numeral(n, hex);
    lemma_digit_char((n % b) as int);
    if n < b {
        assert(s.drop_last() =~= Seq::<char>::empty());
        assert(n % b == n);
        assert(hex_run_value(s) == hex_run_value(s.drop_last()) * 16 + hex_value(s.last()));
        assert(decimal_value(s) == decimal_value(s.drop_last()) * 10 + digit_value(s.last()));
    }
    if n >= b {
        assert((n / b) * b + n % b == n) by (nonlinear_arith)
            requires b > 0;
        lemma_numeral_digits(n / b, hex);
        let p = numeral(n / b, hex);
        assert(s == p.push(digit_char((n % b) as int)));
        assert(s.drop_last() =~= p);
        assert(s.last() == digit_char((n % b) as int));
        assert(hex_run_value(s) == hex_run_value(p) * 16 + hex_value(s.last()));
        assert(decimal_value(s) == decimal_value(p) * 10 + digit_value(s.last()));
        assert forall|i: int| 0 <= i < s.len() implies hex_value(#[trigger] s[i]) >= 0 by {
            if i < p.len() {
                assert(s[i] == p[i]);
            }
        }
        if !hex {
            assert forall|i: int| 0 <= i < s.len() implies is_digit(#[trigger] s[i]) by {
                if i < p.len() {
                    assert(s[i] == p[i]);
                }
            }
        }
    }
}

proof fn lemma_trim_plain(s: Seq<char>)
    requires
        s.len() > 0,
        !is_space(s[0]),
        !is_space(s.last()),
    ensures
        trim(s) == s,
{
}

/// A base-10 integer text parses back to the integer.
pub proof fn lemma_decimal_round_trip(v: i32)
    ensures
        parse_i32_spec(trim(decimal_text(v as int))) == Some(v),
        decimal_text(v as int).len() > 0,
        forall|i: int| 0 <= i < decimal_text(v as int).len()
            ==> #[trigger] decimal_text(v as int)[i] != ',',
{
    let m: nat = if v < 0 { (-(v as int)) as nat } else { v as nat };
    lemma_numeral_digits(m, false);
    let d = numeral(m, false);
    let t = decimal_text(v as int);
    assert(hex_value(',') < 0);
    if v < 0 {
        assert(t == seq!['-'] + d);
        assert(t.drop_first() =~= d);
        assert(t.last() == d.last());
        assert(is_digit(d[0]));
        assert(is_digit(d.last()));
        lemma_trim_plain(t);
        assert forall|i: int| 0 <= i < t.len() implies #[trigger] t[i] != ',' by {
            if i > 0 {
                assert(t[i] == d[i - 1]);
                assert(is_digit(d[i - 1]));
            }
        }
    } else {
        assert(is_digit(d[0]));
        assert(is_digit(d.last()));
        lemma_trim_plain(t);
        assert forall|i: int| 0 <= i < t.len() implies #[trigger] t[i] != ',' by {
            assert(is_digit(d[i]));
        }
    }
}

/// Two-or-fewer-digit hex numerals parse back to the byte.
pub proof fn lemma_hex_round_trip(n: u8)
    ensures
        parse_hex_u8_spec(numeral(n as nat, true)) == Some(n),
{
    lemma_numeral_digits(n as nat, true);
    let s = numeral(n as nat, true);
    assert(s[0] != '+') by {
        assert(hex_value(s[0]) >= 0);
    }
    assert(all_hex(s));
}

pub proof fn lemma_find_char_concat(a: Seq<char>, b: Seq<char>, c: char)
    requires
        forall|i: int| 0 <= i < a.len() ==> #[trigger] a[i] != c,
    ensures
        find_char(a + b, c) == a.len() + find_char(b, c),
    decreases a.len(),
{
    if a.len() > 0 {
        assert((a + b).drop_first() =~= a.drop_first() + b);
        assert forall|i: int| 0 <= i < a.drop_first().len() implies #[trigger] a.drop_first()[i] != c by {
            assert(a.drop_first()[i] == a[i + 1]);
        }
        lemma_find_char_concat(a.drop_first(), b, c);
    } else {
        assert(a + b =~= b);
    }
}

proof fn lemma_commas_front(xs: Seq<i32>)
    requires
        xs.len() > 0,
    ensures
        commas_text(xs) == seq![','] + decimal_text(xs[0] as int) + commas_text(xs.drop_first()),
    decreases xs.len(),
{
    if xs.len() > 1 {
        lemma_commas_front(xs.drop_last());
        assert(xs.drop_last().drop_first() =~= xs.drop_first().drop_last());
        assert(xs.drop_first().last() == xs.last());
        assert(commas_text(xs) =~= seq![','] + decimal_text(xs[0] as int) + commas_text(xs.drop_first()));
    } else {
        assert(xs.drop_last() =~= Seq::<i32>::empty());
        assert(xs.drop_first() =~= Seq::<i32>::empty());
        assert(commas_text(xs) =~= seq![','] + decimal_text(xs[0] as int) + commas_text(xs.drop_first()));
    }
}

pub proof fn lemma_commas_start(xs: Seq<i32>)
    ensures
        xs.len() == 0 ==> commas_text(xs) == Seq::<char>::empty(),
        xs.len() > 0 ==> commas_text(xs).len() > 0 && commas_text(xs)[0] == ',',
        xs.len() > 0 ==> !is_space(commas_text(xs).last()),
        xs.len() > 0 ==> hex_value(commas_text(xs).last()) >= 0,
{
    if xs.len() > 0 {
        lemma_commas_front(xs);
        let m: nat = if xs.last() < 0 { (-(xs.last() as int)) as nat } else { xs.last() as nat };
        lemma_numeral_digits(m, false);
        let d = numeral(m, false);
        assert(decimal_text(xs.last() as int).last() == d.last());
        assert(is_digit(d.last()));
    }
}

/// The fields after the first comma of a comma-prefixed list parse back to
/// the list.
pub proof fn lemma_fields_round_trip(xs: Seq<i32>)
    requires
        xs.len() > 0,
    ensures
        parse_fields_spec(commas_text(xs).drop_first()) == xs,
    decreases xs.len(),
{
    lemma_commas_front(xs);
    let d = decimal_text(xs[0] as int);
    let rest = xs.drop_first();
    let s = commas_text(xs).drop_first();
    assert(s =~= d + commas_text(rest));
    lemma_decimal_round_trip(xs[0]);
    lemma_find_char_concat(d, commas_text(rest), ',');
    lemma_commas_start(rest);
    let k = find_char(s, ',');
    assert(s.subrange(0, k) =~= d) by {
        if rest.len() > 0 {
            assert(find_char(commas_text(rest), ',') == 0);
        } else {
            assert(find_char(commas_text(rest), ',') == 0);
        }
    }
    if rest.len() > 0 {
        assert(find_char(commas_text(rest), ',') == 0);
        assert(s.subrange(k + 1, s.len() as int) =~= commas_text(rest).drop_first());
        lemma_fields_round_trip(rest);
        assert(seq![xs[0]] + rest =~= xs);
    } else {
        assert(k == s.len());
        assert(seq![xs[0]] + Seq::<i32>::empty() =~= xs);
    }
}

/// Whether two strings hold the same characters.
pub fn same_text(a: &str, b: &str) -> (r: bool)
    ensures
        r == (a@ == b@),
{
    let x = chars_of(a);
    let y = chars_of(b);
    if x.len() != y.len() {
        return false;
    }
    let mut i: usize = 0;
    while i < x.len()
        invariant
            i <= x@.len(),
            x@.len() == y@.len(),
            x@ == a@,
            y@ == b@,
            forall|j: int| 0 <= j < i ==> x@[j] == y@[j],
        decreases x@.len() - i,
    {
        if x[i] != y[i] {
            return false;
        }
        i = i + 1;
    }
    assert(x@ =~= y@);
    true
}

/// Whether `t` occurs in `s`.
pub open spec fn has_sub(s: Seq<char>, t: Seq<char>) -> bool {
    exists|i: int| 0 <= i && i + t.len() <= s.len() && #[trigger] s.subrange(i, i + t.len()) == t
}

/// Whether `t` occurs in `s` (as `str::contains`).
pub fn contains_text(s: &str, t: &str) -> (r: bool)
    ensures
        r == has_sub(s@, t@),
{
    let v = chars_of(s);
    let w = chars_of(t);
    if w.len() > v.len() {
        return false;
    }
    if w.len() == 0 {
        assert(s@.subrange(0int, 0int + t@.len()) =~= t@);
        return true;
    }
    let n = v.len();
    let last = n - w.len();
    let mut i: usize = 0;
    while i <= last
        invariant
            v@ == s@,
            w@ == t@,
            0 < w@.len() <= v@.len(),
            n == v@.len(),
            last == v@.len() - w@.len(),
            i <= last + 1,
            forall|k: int| 0 <= k < i ==> #[trigger] v@.subrange(k, k + w@.len()) != w@,
        decreases last + 1 - i,
    {
        let mut j: usize = 0;
        while j < w.len() && v[i + j] == w[j]
            invariant
                i <= last,
                last == v@.len() - w@.len(),
                0 < w@.len() <= v@.len(),
                n == v@.len(),
                j <= w@.len(),
                forall|q: int| 0 <= q < j ==> v@[i + q] == w@[q],
            decreases w@.len() - j,
        {
            j = j + 1;
        }
        if j == w.len() {
            assert(v@.subrange(i as int, i + w@.len()) =~= w@);
            return true;
        }
        assert(v@.subrange(i as int, i + w@.len())[j as int] != w@[j as int]);
        i = i + 1;
    }
    assert forall|k: int| 0 <= k && k + t@.len() <= s@.len() implies #[trigger] s@.subrange(k, k + t@.len()) != t@ by {
        assert(k < i);
    }
    false
}

} // verus!
