//! Reading the CPU temperature from the kernel's thermal-zone text.

use vstd::prelude::*;
use crate::text::{decimal, digit_char};

verus! {

/// Unicode white space, as `char::is_whitespace` defines it: U+0009 to
/// U+000D, U+0020, U+0085, U+00A0, U+1680, U+2000 to U+200A, U+2028,
/// U+2029, U+202F, U+205F and U+3000.
pub open spec fn is_ws(c: char) -> bool {
    let n = c as u32;
    ||| 9 <= n <= 13
    ||| n == 32
    ||| n == 0x85
    ||| n == 0xa0
    ||| n == 0x1680
    ||| 0x2000 <= n <= 0x200a
    ||| n == 0x2028
    ||| n == 0x2029
    ||| n == 0x202f
    ||| n == 0x205f
    ||| n == 0x3000
}

/// Index of the first character of `s` from `i` on that is not white space
/// (or the length when there is none).
pub open spec fn skip_ws_from(s: Seq<char>, i: int) -> int
    decreases s.len() - i,
{
    if 0 <= i < s.len() && is_ws(s[i]) {
        skip_ws_from(s, i + 1)
    } else {
        i
    }
}

/// End of `s` before `j` with trailing white space removed, not going
/// below `lo`.
pub open spec fn back_ws_from(s: Seq<char>, lo: int, j: int) -> int
    decreases j - lo,
{
    if lo < j <= s.len() && is_ws(s[j - 1]) {
        back_ws_from(s, lo, j - 1)
    } else {
        j
    }
}

/// `s` without leading and trailing white space (`str::trim`).
pub open spec fn trim(s: Seq<char>) -> Seq<char> {
    let a = skip_ws_from(s, 0);
    let b = back_ws_from(s, a, s.len() as int);
    s.subrange(a, b)
}

/// An ASCII decimal digit.
pub open spec fn is_digit(c: char) -> bool {
    48 <= (c as u32) <= 57
}

/// Every character of `s` is a decimal digit.
pub open spec fn all_digits(s: Seq<char>) -> bool {
    forall|i: int| 0 <= i < s.len() ==> is_digit(#[trigger] s[i])
}

/// The value of a string of decimal digits.
pub open spec fn digits_value(s: Seq<char>) -> nat
    decreases s.len(),
{
    if s.len() == 0 {
        0
    } else {
        digits_value(s.drop_last()) * 10 + ((s.last() as u32) - 48) as nat
    }
}

/// What `str::parse::<i32>` gives for `s`: an optional `+` or `-` sign
/// followed by at least one decimal digit and nothing else, whose value fits
/// in an `i32`; `None` for any other text.
pub open spec fn parse_i32(s: Seq<char>) -> Option<i32> {
    if s.len() == 0 {
        None
    } else {
        let signed = s[0] == '+' || s[0] == '-';
        let body = if signed { s.drop_first() } else { s };
        if body.len() == 0 || !all_digits(body) {
            None
        } else if s[0] == '-' {
            if digits_value(body) <= 2147483648 {
                Some((-(digits_value(body) as int)) as i32)
            } else {
                None
            }
        } else if digits_value(body) <= 2147483647 {
            Some(digits_value(body) as i32)
        } else {
            None
        }
    }
}

/// The reading of a thermal-zone file: its text, trimmed, parsed as an
/// `i32` (thousandths of a degree Celsius).
pub open spec fn zone_reading(text: Seq<char>) -> Option<i32> {
    parse_i32(trim(text))
}

/// A prefix of a digit string is worth no more than the whole.
pub proof fn lemma_digits_prefix_le(s: Seq<char>, m: int)
    requires
        all_digits(s),
        0 <= m <= s.len(),
    ensures
        digits_value(s.subrange(0, m)) <= digits_value(s),
    decreases s.len(),
{
    if m < s.len() {
        assert(s.drop_last() =~= s.subrange(0, s.len() - 1));
        assert(s.subrange(0, m) =~= s.drop_last().subrange(0, m));
        lemma_digits_prefix_le(s.drop_last(), m);
    } else {
        assert(s.subrange(0, m) =~= s);
    }
}

/// The decimal text of an `i32`, with a minus sign when negative.
pub open spec fn i32_text(n: i32) -> Seq<char> {
    if n < 0 {
        seq!['-'] + decimal((-(n as int)) as nat)
    } else {
        decimal(n as nat)
    }
}

/// A decimal numeral is a non-empty string of digits whose value is the
/// number it was written from.
pub proof fn lemma_decimal_digits(m: nat)
    ensures
        decimal(m).len() > 0,
        all_digits(decimal(m)),
        digits_value(decimal(m)) == m,
    decreases m,
{
    if m >= 10 {
        lemma_decimal_digits(m / 10);
        let d = decimal(m);
        assert(d.drop_last() =~= decimal(m / 10));
        assert forall|i: int| 0 <= i < d.len() implies is_digit(#[trigger] d[i]) by {
            if i < d.len() - 1 {
                assert(d[i] == decimal(m / 10)[i]);
            }
        }
        assert(d.last() == digit_char(m % 10));
        assert(digit_char(m % 10) as u32 == m % 10 + 48);
        assert((m / 10) * 10 + m % 10 == m) by (nonlinear_arith);
        assert(digits_value(d) == digits_value(decimal(m / 10)) * 10 + m % 10);
    } else {
        let d = decimal(m);
        assert(d.drop_last() =~= Seq::<char>::empty());
        assert(digits_value(d.drop_last()) == 0);
        assert(d.last() == digit_char(m));
        assert(digit_char(m) as u32 == m + 48);
        assert(digits_value(d) == m);
    }
}

/// Reading back what was written: the thermal-zone text of any `i32`,
/// followed by a newline as the kernel writes it, reads as that number.
pub proof fn lemma_zone_reading_roundtrip(n: i32)
    ensures
        zone_reading(i32_text(n) + seq!['\n']) == Some(n),
{
    let t = i32_text(n);
    let s = t + seq!['\n'];
    let m: nat = if n < 0 { (-(n as int)) as nat } else { n as nat };
    lemma_decimal_digits(m);
    let d = decimal(m);
    assert(is_digit(d[0]));
    assert(is_digit(d[d.len() - 1]));
    assert(!is_ws(s[0]));
    assert(skip_ws_from(s, 0) == 0);
    assert(s[s.len() - 1] == '\n');
    assert(!is_ws(s[s.len() - 2]));
    assert(back_ws_from(s, 0, s.len() - 1) == s.len() - 1);
    assert(back_ws_from(s, 0, s.len() as int) == s.len() - 1);
    assert(trim(s) =~= t);
    if n < 0 {
        assert(t.drop_first() =~= d);
    }
}

/// Tells whether `c` is white space.
pub fn char_is_ws(c: char) -> (b: bool)
    ensures
        b == is_ws(c),
{
    let n: u32 = c as u32;
    (9 <= n && n <= 13) || n == 32 || n == 0x85 || n == 0xa0 || n == 0x1680 || (0x2000 <= n && n
        <= 0x200a) || n == 0x2028 || n == 0x2029 || n == 0x202f || n == 0x205f || n == 0x3000
}

/// Parses the text of a thermal-zone file (`"47312\n"`): white space around
/// the number is ignored; the number is in thousandths of a degree Celsius.
/// `None` when the text is not a whole number that fits in an `i32`.
#[verifier::loop_isolation(false)]
pub fn parse_millidegrees(text: &str) -> (r: Option<i32>)
    ensures
        r == zone_reading(text@),
{
    let ghost s = text@;
    let n: usize = text.unicode_len();
    let mut a: usize = 0;
    while a < n && char_is_ws(text.get_char(a))
        invariant
            a <= n,
            n == s.len(),
            s == text@,
            skip_ws_from(s, 0) == skip_ws_from(s, a as int),
        decreases n - a,
    {
        a = a + 1;
    }
    let mut b: usize = n;
    while b > a && char_is_ws(text.get_char(b - 1))
        invariant
            a <= b <= n,
            n == s.len(),
            s == text@,
            a == skip_ws_from(s, 0),
            back_ws_from(s, a as int, n as int) == back_ws_from(s, a as int, b as int),
        decreases b - a,
    {
        b = b - 1;
    }
    let ghost t = s.subrange(a as int, b as int);
    assert(t == trim(s));
    if a == b {
        return None;
    }
    let first = text.get_char(a);
    let neg = first == '-';
    let k: usize = if first == '+' || first == '-' {
        a + 1
    } else {
        a
    };
    let ghost body = s.subrange(k as int, b as int);
    assert(body =~= (if first == '+' || first == '-' { t.drop_first() } else { t }));
    if k == b {
        return None;
    }
    let mut acc: u64 = 0;
    let mut i: usize = k;
    while i < b
        invariant
            k <= i <= b <= n,
            n == s.len(),
            s == text@,
            body == s.subrange(k as int, b as int),
            acc == digits_value(s.subrange(k as int, i as int)),
            acc <= 2147483648,
            all_digits(s.subrange(k as int, i as int)),
        decreases b - i,
    {
        let c = text.get_char(i);
        let cn: u32 = c as u32;
        if cn < 48 || cn > 57 {
            assert(body[i - k] == c);
            assert(!all_digits(body));
            return None;
        }
        proof {
            assert(s.subrange(k as int, i + 1).drop_last() =~= s.subrange(k as int, i as int));
            assert(all_digits(s.subrange(k as int, i + 1)));
        }
        acc = acc * 10 + (cn - 48) as u64;
        i = i + 1;
        if acc > 2147483648 {
            proof {
                if all_digits(body) {
                    assert(body.subrange(0, i - k) =~= s.subrange(k as int, i as int));
                    lemma_digits_prefix_le(body, i - k);
                }
            }
            return None;
        }
    }
    assert(s.subrange(k as int, b as int) =~= body);
    if neg {
        Some((-(acc as i64)) as i32)
    } else if acc <= 2147483647 {
        Some(acc as i32)
    } else {
        None
    }
}

/// The first reading of `sensors` from index `i` on.
pub open spec fn first_reading_from(sensors: Seq<Option<i32>>, i: int) -> Option<i32>
    decreases sensors.len() - i,
{
    if i < 0 || i >= sensors.len() {
        None
    } else if sensors[i] is Some {
        sensors[i]
    } else {
        first_reading_from(sensors, i + 1)
    }
}

/// The CPU temperature the display shows: the first temperature sensor
/// that has a reading, else the thermal-zone file's reading (both in
/// thousandths of a degree Celsius).
pub open spec fn cpu_temp_of(sensors: Seq<Option<i32>>, zone_text: Option<Seq<char>>) -> Option<
    i32,
> {
    match first_reading_from(sensors, 0) {
        Some(t) => Some(t),
        None => match zone_text {
            Some(z) => zone_reading(z),
            None => None,
        },
    }
}

/// The CPU temperature from the sensors' readings (thousandths of a degree
/// Celsius, `None` for a sensor without one) and the text of the thermal
/// zone file, if it could be read.
pub fn get_cpu_temp(sensors: &Vec<Option<i32>>, zone_text: Option<String>) -> (r: Option<i32>)
    ensures
        r == cpu_temp_of(
            sensors@,
            match zone_text {
                Some(z) => Some(z@),
                None => None,
            },
        ),
{
    let mut i: usize = 0;
    while i < sensors.len()
        invariant
            i <= sensors.len(),
            first_reading_from(sensors@, 0) == first_reading_from(sensors@, i as int),
        decreases sensors.len() - i,
    {
        if let Some(t) = sensors[i] {
            return Some(t);
        }
        i = i + 1;
    }
    match zone_text {
        Some(z) => parse_millidegrees(z.as_str()),
        None => None,
    }
}

} // verus!
