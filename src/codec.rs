use crate::error::{plain_result, DecodeError, DecodeErrorView, ValueKind};
use crate::text::{decimal, digit_char, push_char, push_decimal};
use vstd::prelude::*;
use vstd::string::*;

verus! {

/// `c` is one of the ASCII decimal digits.
pub open spec fn is_digit(c: char) -> bool {
    48 <= (c as u32) && (c as u32) <= 57
}

/// The value of a run of decimal digits.
pub open spec fn digits_value(s: Seq<char>) -> nat
    decreases s.len(),
{
    if s.len() == 0 {
        0
    } else {
        digits_value(s.drop_last()) * 10 + ((s.last() as u32) - 48) as nat
    }
}

/// `s` is a non-empty run of decimal digits.
pub open spec fn is_digit_run(s: Seq<char>) -> bool {
    s.len() > 0 && forall|i: int| 0 <= i < s.len() ==> is_digit(#[trigger] s[i])
}

/// The magnitude written by `s` after an optional sign, if `s` is a well-formed
/// decimal integer; `None` otherwise. A `-` sign is accepted only when `signed`.
pub open spec fn integer_text(s: Seq<char>, signed: bool) -> Option<(bool, nat)> {
    if s.len() > 0 && s[0] == '+' && is_digit_run(s.drop_first()) {
        Some((false, digits_value(s.drop_first())))
    } else if signed && s.len() > 0 && s[0] == '-' && is_digit_run(s.drop_first()) {
        Some((true, digits_value(s.drop_first())))
    } else if is_digit_run(s) {
        Some((false, digits_value(s)))
    } else {
        None
    }
}

/// The integer that `s` writes in decimal, if it lies in `lo..=hi`.
pub open spec fn integer_in(s: Seq<char>, signed: bool, lo: int, hi: int) -> Option<int> {
    match integer_text(s, signed) {
        Some((negative, magnitude)) => {
            let v = if negative { -magnitude } else { magnitude as int };
            if lo <= v && v <= hi {
                Some(v)
            } else {
                None
            }
        },
        None => None,
    }
}

/// Any magnitude of this size or more lies out of every range decoded here.
pub const MAGNITUDE_CAP: u64 = 0x1_0000_0000;

/// `n`, or `MAGNITUDE_CAP` where `n` is not below it.
pub open spec fn capped(n: nat) -> u64 {
    if n < MAGNITUDE_CAP {
        n as u64
    } else {
        MAGNITUDE_CAP
    }
}

/// Reads the digits of `s[start..]`, saturating at `MAGNITUDE_CAP`.
fn read_digits(s: &str, start: usize) -> (r: Option<u64>)
    requires
        start <= s@.len(),
    ensures
        is_digit_run(s@.skip(start as int)) ==> r == Some(
            capped(digits_value(s@.skip(start as int))),
        ),
        !is_digit_run(s@.skip(start as int)) ==> r is None,
{
    let n = s.unicode_len();
    if start == n {
        return None;
    }
    let ghost t = s@.skip(start as int);
    let mut acc: u64 = 0;
    let mut i: usize = start;
    while i < n
        invariant
            n == s@.len(),
            t == s@.skip(start as int),
            start <= i <= n,
            forall|j: int| start <= j < i ==> is_digit(#[trigger] s@[j]),
            acc == capped(digits_value(t.take(i - start))),
        decreases n - i,
    {
        let c = s.get_char(i);
        if !('0' <= c && c <= '9') {
            assert(t[i - start] == c);
            return None;
        }
        let d: u64 = (c as u32 - 48) as u64;
        proof {
            assert(t.take(i + 1 - start).drop_last() == t.take(i - start));
            assert(t.take(i + 1 - start).last() == c);
        }
        if acc >= MAGNITUDE_CAP || acc * 10 + d >= MAGNITUDE_CAP {
            acc = MAGNITUDE_CAP;
        } else {
            acc = acc * 10 + d;
        }
        i = i + 1;
    }
    assert(t.take(n - start) == t);
    Some(acc)
}

/// Decodes a decimal integer in `lo..=hi`, as `str::parse` does for the integer
/// types: an optional sign (`-` only when `signed`), then one or more digits.
pub(crate) fn parse_integer(s: &str, signed: bool, lo: i64, hi: i64) -> (r: Option<i64>)
    requires
        -0xffff_ffff <= lo,
        hi <= 0xffff_ffff,
    ensures
        r matches Some(v) ==> integer_in(s@, signed, lo as int, hi as int) == Some(v as int),
        r is None ==> integer_in(s@, signed, lo as int, hi as int) is None,
{
    let n = s.unicode_len();
    let mut start: usize = 0;
    let mut negative = false;
    if n > 0 {
        let c = s.get_char(0);
        if c == '+' {
            start = 1;
        } else if signed && c == '-' {
            start = 1;
            negative = true;
        }
    }
    let digits = read_digits(s, start);
    proof {
        assert(s@.skip(0) == s@);
        if n > 0 {
            assert(s@.skip(1) == s@.drop_first());
        }
    }
    match digits {
        None => {
            proof {
                if n > 0 && s@[0] == '+' {
                    assert(!is_digit('+'));
                }
                if n > 0 && s@[0] == '-' {
                    assert(!is_digit('-'));
                }
            }
            None
        },
        Some(m) => {
            if m >= MAGNITUDE_CAP {
                return None;
            }
            let v: i64 = if negative { -(m as i64) } else { m as i64 };
            if lo <= v && v <= hi {
                Some(v)
            } else {
                None
            }
        },
    }
}

/// `n` written with at least two digits.
pub open spec fn two_digits(n: nat) -> Seq<char> {
    if n < 10 {
        seq!['0'] + decimal(n)
    } else {
        decimal(n)
    }
}

/// `HH:MM:SS` for a non-negative number of seconds; the hours are unbounded.
pub open spec fn clock_text(total: nat) -> Seq<char> {
    two_digits(total / 3600) + seq![':'] + two_digits((total / 60) % 60) + seq![':'] + two_digits(
        total % 60,
    )
}

/// The text of a duration or of a signed offset, in seconds.
pub open spec fn duration_text(seconds: int) -> Seq<char> {
    if seconds < 0 {
        seq!['-'] + clock_text((-seconds) as nat)
    } else {
        clock_text(seconds as nat)
    }
}

fn push_two_digits(s: &mut String, n: u64)
    ensures
        final(s)@ == old(s)@ + two_digits(n as nat),
{
    if n < 10 {
        push_char(s, '0');
    }
    push_decimal(s, n);
    proof {
        if n < 10 {
            assert(final(s)@ == old(s)@ + two_digits(n as nat));
        }
    }
}

/// Writes a number of seconds as `HH:MM:SS`, with a leading `-` when negative.
pub fn seconds_to_str(seconds_total: i64) -> (r: String)
    ensures
        r@ == duration_text(seconds_total as int),
{
    let mut s = String::new();
    let total: u64 = if seconds_total < 0 {
        push_char(&mut s, '-');
        ((-(seconds_total + 1)) as u64) + 1
    } else {
        seconds_total as u64
    };
    push_two_digits(&mut s, total / 3600);
    push_char(&mut s, ':');
    push_two_digits(&mut s, (total / 60) % 60);
    push_char(&mut s, ':');
    push_two_digits(&mut s, total % 60);
    s
}


/// The position of the first `:` in `s`, or its length where there is none.
pub open spec fn colon_at(s: Seq<char>) -> int
    decreases s.len(),
{
    if s.len() == 0 {
        0
    } else if s[0] == ':' {
        0
    } else {
        1 + colon_at(s.drop_first())
    }
}

/// A component of a duration: a decimal number that fits in `u32`.
pub open spec fn clock_field(s: Seq<char>) -> Option<int> {
    integer_in(s, false, 0, u32::MAX as int)
}

/// The seconds that an `HH:MM:SS` text stands for: three `:`-separated numbers
/// (the last taking the rest of the text), whose total fits in `u32`.
pub open spec fn duration_value(s: Seq<char>) -> Option<u32> {
    let i = colon_at(s);
    let rest = s.skip(i + 1);
    let j = colon_at(rest);
    if i < s.len() && j < rest.len() {
        match (clock_field(s.take(i)), clock_field(rest.take(j)), clock_field(rest.skip(j + 1))) {
            (Some(h), Some(m), Some(x)) => {
                if h * 3600 + m * 60 + x <= u32::MAX {
                    Some((h * 3600 + m * 60 + x) as u32)
                } else {
                    None
                }
            },
            _ => None,
        }
    } else {
        None
    }
}

proof fn lemma_colon_at(t: Seq<char>, k: int)
    requires
        0 <= k <= t.len(),
        forall|j: int| 0 <= j < k ==> t[j] != ':',
        k == t.len() || t[k] == ':',
    ensures
        colon_at(t) == k,
    decreases k,
{
    if k > 0 {
        lemma_colon_at(t.drop_first(), k - 1);
    }
}

/// The position of the first `:` at or after `from`, or the length of `s`.
fn find_colon(s: &str, from: usize) -> (r: usize)
    requires
        from <= s@.len(),
    ensures
        from <= r <= s@.len(),
        r - from == colon_at(s@.skip(from as int)),
{
    let n = s.unicode_len();
    let mut i: usize = from;
    while i < n
        invariant
            n == s@.len(),
            from <= i <= n,
            forall|j: int| from <= j < i ==> s@[j] != ':',
        ensures
            from <= i <= n,
            forall|j: int| from <= j < i ==> s@[j] != ':',
            i == n || s@[i as int] == ':',
        decreases n - i,
    {
        if s.get_char(i) == ':' {
            break;
        }
        i = i + 1;
    }
    proof {
        lemma_colon_at(s@.skip(from as int), i - from);
    }
    i
}

fn clock_field_of(s: &str) -> (r: Option<u64>)
    ensures
        r matches Some(v) ==> clock_field(s@) == Some(v as int),
        r is None ==> clock_field(s@) is None,
{
    match parse_integer(s, false, 0, 0xffff_ffff) {
        Some(v) => Some(v as u64),
        None => None,
    }
}

/// Decodes an `HH:MM:SS` duration into seconds.
pub fn seconds_from_str(s: &str) -> (r: Result<u32, DecodeError>)
    ensures
        plain_result(r) == match duration_value(s@) {
            Some(v) => Ok(v),
            None => Err(DecodeErrorView::InvalidValue(ValueKind::Duration)),
        },
{
    let n = s.unicode_len();
    let i = find_colon(s, 0);
    proof {
        assert(s@.skip(0) == s@);
    }
    if i == n {
        return Err(DecodeError::InvalidValue(ValueKind::Duration));
    }
    let j = find_colon(s, i + 1);
    let ghost rest = s@.skip(i + 1);
    if j == n {
        return Err(DecodeError::InvalidValue(ValueKind::Duration));
    }
    let hours = s.substring_char(0, i);
    let minutes = s.substring_char(i + 1, j);
    let seconds = s.substring_char(j + 1, n);
    proof {
        assert(hours@ == s@.take(i as int));
        assert(minutes@ == rest.take(j - i - 1));
        assert(seconds@ == rest.skip(j - i));
        assert(colon_at(s@) == i);
        assert(colon_at(rest) == j - i - 1);
    }
    match (clock_field_of(hours), clock_field_of(minutes), clock_field_of(seconds)) {
        (Some(h), Some(m), Some(x)) => {
            assert(h * 3600 <= 0xffff_ffff * 3600 && m * 60 <= 0xffff_ffff * 60)
                by (nonlinear_arith)
                requires
                    h <= 0xffff_ffff,
                    m <= 0xffff_ffff,
            ;
            let total: u64 = h * 3600 + m * 60 + x;
            if total <= 0xffff_ffff {
                Ok(total as u32)
            } else {
                Err(DecodeError::InvalidValue(ValueKind::Duration))
            }
        },
        _ => Err(DecodeError::InvalidValue(ValueKind::Duration)),
    }
}


proof fn lemma_decimal_is_digit_run(n: nat)
    ensures
        is_digit_run(decimal(n)),
        digits_value(decimal(n)) == n,
    decreases n,
{
    if n >= 10 {
        lemma_decimal_is_digit_run(n / 10);
        assert(decimal(n).drop_last() == decimal(n / 10));
        assert(digit_char(n % 10) as u32 == 48 + n % 10);
        assert((n / 10) * 10 + n % 10 == n) by (nonlinear_arith);
        assert(decimal(n).last() == digit_char(n % 10));
        assert(digits_value(decimal(n)) == digits_value(decimal(n / 10)) * 10 + n % 10);
    } else {
        assert(decimal(n).drop_last() == Seq::<char>::empty());
        assert(digit_char(n) as u32 == 48 + n);
        assert(digits_value(Seq::<char>::empty()) == 0);
        assert(digits_value(decimal(n)) == n);
    }
}

proof fn lemma_leading_zero(d: Seq<char>)
    ensures
        digits_value(seq!['0'] + d) == digits_value(d),
    decreases d.len(),
{
    if d.len() > 0 {
        lemma_leading_zero(d.drop_last());
        assert((seq!['0'] + d).drop_last() == seq!['0'] + d.drop_last());
        assert((seq!['0'] + d).last() == d.last());
        assert(digits_value(seq!['0'] + d) == digits_value(seq!['0'] + d.drop_last()) * 10 + ((
        d.last() as u32) - 48) as nat);
    } else {
        assert(digits_value(Seq::<char>::empty()) == 0);
        assert((seq!['0'] + d).drop_last() == Seq::<char>::empty());
        assert((seq!['0'] + d).last() == '0');
        assert('0' as u32 == 48);
    }
}

proof fn lemma_two_digits(n: nat)
    ensures
        is_digit_run(two_digits(n)),
        clock_field(two_digits(n)) == (if n <= u32::MAX { Some(n as int) } else { None::<int> }),
{
    lemma_decimal_is_digit_run(n);
    if n < 10 {
        lemma_leading_zero(decimal(n));
        assert(is_digit_run(two_digits(n)));
    }
    assert(two_digits(n)[0] != '+');
}

proof fn lemma_split_at_colon(a: Seq<char>, b: Seq<char>)
    requires
        is_digit_run(a),
    ensures
        colon_at(a + seq![':'] + b) == a.len(),
        (a + seq![':'] + b).take(a.len() as int) == a,
        (a + seq![':'] + b).skip(a.len() as int + 1) == b,
{
    let t = a + seq![':'] + b;
    assert forall|j: int| 0 <= j < a.len() implies t[j] != ':' by {
        assert(is_digit(a[j]));
    }
    lemma_colon_at(t, a.len() as int);
    assert(t.take(a.len() as int) == a);
    assert(t.skip(a.len() as int + 1) == b);
}

/// Decoding the text of any duration that fits in `u32` gives back its seconds.
pub proof fn duration_round_trip(seconds: u32)
    ensures
        duration_value(duration_text(seconds as int)) == Some(seconds),
{
    let s = seconds as nat;
    let h = s / 3600;
    let m = (s / 60) % 60;
    let x = s % 60;
    lemma_two_digits(h);
    lemma_two_digits(m);
    lemma_two_digits(x);
    let a = two_digits(h);
    let b = two_digits(m);
    let c = two_digits(x);
    assert(duration_text(seconds as int) == a + seq![':'] + (b + seq![':'] + c));
    lemma_split_at_colon(a, b + seq![':'] + c);
    lemma_split_at_colon(b, c);
    assert(h * 3600 + m * 60 + x == s) by (nonlinear_arith)
        requires
            h == s / 3600,
            m == (s / 60) % 60,
            x == s % 60,
    ;
}


/// `c` has the Unicode `White_Space` property.
pub open spec fn is_white(c: char) -> bool {
    let u = c as u32;
    ||| 9 <= u <= 13
    ||| u == 0x20 || u == 0x85 || u == 0xa0 || u == 0x1680
    ||| 0x2000 <= u <= 0x200a
    ||| u == 0x2028 || u == 0x2029 || u == 0x202f || u == 0x205f || u == 0x3000
}

pub open spec fn trim_start(s: Seq<char>) -> Seq<char>
    decreases s.len(),
{
    if s.len() > 0 && is_white(s[0]) {
        trim_start(s.drop_first())
    } else {
        s
    }
}

pub open spec fn trim_end(s: Seq<char>) -> Seq<char>
    decreases s.len(),
{
    if s.len() > 0 && is_white(s.last()) {
        trim_end(s.drop_last())
    } else {
        s
    }
}

/// `s` without leading and trailing white space.
pub open spec fn trimmed(s: Seq<char>) -> Seq<char> {
    trim_end(trim_start(s))
}

/// The flag that `s` writes: `0` or `1`, with white space around it allowed.
pub open spec fn flag_value(s: Seq<char>) -> Option<bool> {
    if trimmed(s) == seq!['0'] {
        Some(false)
    } else if trimmed(s) == seq!['1'] {
        Some(true)
    } else {
        None
    }
}

fn white(c: char) -> (r: bool)
    ensures
        r == is_white(c),
{
    let u = c as u32;
    (9 <= u && u <= 13) || u == 0x20 || u == 0x85 || u == 0xa0 || u == 0x1680 || (0x2000 <= u
        && u <= 0x200a) || u == 0x2028 || u == 0x2029 || u == 0x202f || u == 0x205f || u == 0x3000
}

proof fn lemma_trim_start(s: Seq<char>, a: int)
    requires
        0 <= a <= s.len(),
        forall|j: int| 0 <= j < a ==> is_white(s[j]),
        a == s.len() || !is_white(s[a]),
    ensures
        trim_start(s) == s.skip(a),
    decreases a,
{
    if a > 0 {
        lemma_trim_start(s.drop_first(), a - 1);
        assert(s.drop_first().skip(a - 1) == s.skip(a));
    } else {
        assert(s.skip(0) == s);
    }
}

proof fn lemma_trim_end(t: Seq<char>, k: int)
    requires
        0 <= k <= t.len(),
        forall|j: int| k <= j < t.len() ==> is_white(t[j]),
        k == 0 || !is_white(t[k - 1]),
    ensures
        trim_end(t) == t.take(k),
    decreases t.len(),
{
    if t.len() > k {
        lemma_trim_end(t.drop_last(), k);
        assert(t.drop_last().take(k) == t.take(k));
    } else {
        assert(t.take(k) == t);
    }
}

/// Decodes a `0`/`1` flag, ignoring white space around it.
pub fn parse_bool(s: String) -> (r: Result<bool, DecodeError>)
    ensures
        plain_result(r) == match flag_value(s@) {
            Some(b) => Ok(b),
            None => Err(DecodeErrorView::InvalidValue(ValueKind::Bool)),
        },
{
    let t = s.as_str();
    let n = t.unicode_len();
    let mut a: usize = 0;
    while a < n && white(t.get_char(a))
        invariant
            n == s@.len(),
            t@ == s@,
            a <= n,
            forall|j: int| 0 <= j < a ==> is_white(s@[j]),
        decreases n - a,
    {
        a = a + 1;
    }
    let mut b: usize = n;
    while b > a && white(t.get_char(b - 1))
        invariant
            n == s@.len(),
            t@ == s@,
            a <= b <= n,
            forall|j: int| b <= j < n ==> is_white(s@[j]),
        decreases b - a,
    {
        b = b - 1;
    }
    proof {
        lemma_trim_start(s@, a as int);
        let u = s@.skip(a as int);
        assert forall|j: int| b - a <= j < u.len() implies is_white(u[j]) by {
            assert(u[j] == s@[a + j]);
        }
        lemma_trim_end(u, b - a);
        assert(u.take(b - a) == s@.subrange(a as int, b as int));
    }
    if b - a == 1 {
        let c = t.get_char(a);
        proof {
            assert(trimmed(s@) == seq![c]);
        }
        if c == '0' {
            return Ok(false);
        } else if c == '1' {
            proof {
                assert(seq!['1'][0] != seq!['0'][0]);
            }
            return Ok(true);
        }
        proof {
            assert(trimmed(s@)[0] == c);
        }
    } else {
        proof {
            assert(trimmed(s@).len() != 1);
            assert(seq!['0'].len() == 1 && seq!['1'].len() == 1);
        }
    }
    Err(DecodeError::InvalidValue(ValueKind::Bool))
}

} // verus!
