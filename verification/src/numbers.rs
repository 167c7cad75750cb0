//! Decimal integers in text: reading them as `str::parse` does for the
//! signed integer types, and writing them as their `Display` does.
use vstd::prelude::*;

verus! {

pub open spec fn is_digit(c: char) -> bool {
    '0' <= c && c <= '9'
}

pub open spec fn digit_value(c: char) -> int {
    c as int - '0' as int
}

pub open spec fn all_digits(s: Seq<char>) -> bool {
    forall|i: int| 0 <= i < s.len() ==> #[trigger] is_digit(s[i])
}

/// The number that the decimal digits `s` stand for.
pub open spec fn digits_value(s: Seq<char>) -> int
    decreases s.len(),
{
    if s.len() == 0 {
        0
    } else {
        digits_value(s.drop_last()) * 10 + digit_value(s.last())
    }
}

/// What `str::parse` gives for a signed integer type whose values are
/// `min..=max`: an optional `+` or `-`, then one or more ASCII digits, and a
/// value in range; `None` for anything else.
pub open spec fn parse_int_spec(s: Seq<char>, min: int, max: int) -> Option<int> {
    if s.len() == 0 {
        None
    } else {
        let signed = s[0] == '+' || s[0] == '-';
        let body = if signed { s.drop_first() } else { s };
        let value = if s[0] == '-' { -digits_value(body) } else { digits_value(body) };
        if body.len() == 0 || !all_digits(body) || value < min || value > max {
            None
        } else {
            Some(value)
        }
    }
}

/// The decimal digits of `n`, most significant first, without leading zeros.
pub open spec fn digits_of(n: nat) -> Seq<char>
    decreases n,
{
    if n < 10 {
        seq![((n + '0' as int) as char)]
    } else {
        digits_of(n / 10).push(((n % 10) + '0' as int) as char)
    }
}

/// `n` written in decimal, as `Display` writes a signed integer.
pub open spec fn decimal_spec(n: int) -> Seq<char> {
    if n < 0 {
        seq!['-'] + digits_of((-n) as nat)
    } else {
        digits_of(n as nat)
    }
}

proof fn lemma_digits_value_nonneg(s: Seq<char>)
    requires
        all_digits(s),
    ensures
        digits_value(s) >= 0,
    decreases s.len(),
{
    if s.len() > 0 {
        assert(is_digit(s[s.len() - 1]));
        lemma_digits_value_nonneg(s.drop_last());
    }
}

/// A digit string stands for at least as much as any of its prefixes.
proof fn lemma_digits_value_prefix(s: Seq<char>, i: int)
    requires
        all_digits(s),
        0 <= i <= s.len(),
    ensures
        digits_value(s.take(i)) <= digits_value(s),
    decreases s.len(),
{
    if i < s.len() {
        assert(is_digit(s[s.len() - 1]));
        lemma_digits_value_prefix(s.drop_last(), i);
        lemma_digits_value_nonneg(s.drop_last());
        assert(s.drop_last().take(i) =~= s.take(i));
    } else {
        assert(s.take(i) =~= s);
    }
}

proof fn lemma_digits_of(n: nat)
    ensures
        digits_of(n).len() >= 1,
        all_digits(digits_of(n)),
        digits_value(digits_of(n)) == n,
        is_digit(digits_of(n)[0]),
    decreases n,
{
    let c = (((n % 10) + '0' as int) as char);
    assert(c as int == (n % 10) + '0' as int);
    assert(digit_value(c) == n % 10);
    if n >= 10 {
        lemma_digits_of(n / 10);
        let d = digits_of(n);
        assert(d.drop_last() =~= digits_of(n / 10));
        assert(d.last() == c);
        assert((n / 10) * 10 + n % 10 == n);
        assert(digits_value(d) == digits_value(d.drop_last()) * 10 + digit_value(d.last()));
        assert forall|i: int| 0 <= i < d.len() implies #[trigger] is_digit(d[i]) by {
            if i < d.len() - 1 {
                assert(d[i] == digits_of(n / 10)[i]);
            }
        }
        assert(digits_value(d.drop_last()) == n / 10);
        assert(digits_value(d) == n);
    } else {
        assert(n % 10 == n);
        let d = digits_of(n);
        assert(d == seq![c]);
        assert(d.drop_last() =~= Seq::<char>::empty());
        assert(digits_value(d) == digits_value(d.drop_last()) * 10 + digit_value(d.last()));
        assert(digits_value(d) == n);
    }
}

/// Reading back what `decimal_spec` writes gives the number again, for every
/// number in the type's range.
pub proof fn lemma_decimal_round_trip(n: int, min: int, max: int)
    requires
        min <= n <= max,
    ensures
        parse_int_spec(decimal_spec(n), min, max) == Some(n),
{
    if n < 0 {
        let m = (-n) as nat;
        lemma_digits_of(m);
        let s = decimal_spec(n);
        assert(s.drop_first() =~= digits_of(m));
    } else {
        lemma_digits_of(n as nat);
        let d = digits_of(n as nat);
        assert(d[0] != '+' && d[0] != '-');
    }
}

/// The character of the decimal digit `d`.
fn digit_char(d: u64) -> (c: char)
    requires
        d < 10,
    ensures
        c == ((d + '0' as int) as char),
{
    if d == 0 {
        '0'
    } else if d == 1 {
        '1'
    } else if d == 2 {
        '2'
    } else if d == 3 {
        '3'
    } else if d == 4 {
        '4'
    } else if d == 5 {
        '5'
    } else if d == 6 {
        '6'
    } else if d == 7 {
        '7'
    } else if d == 8 {
        '8'
    } else {
        '9'
    }
}

/// Appends the decimal digits of `m` to `out`.
fn push_digits(m: u64, out: &mut Vec<char>)
    ensures
        final(out)@ == old(out)@ + digits_of(m as nat),
    decreases m,
{
    if m >= 10 {
        push_digits(m / 10, out);
        out.push(digit_char(m % 10));
        assert(final(out)@ =~= old(out)@ + digits_of(m as nat));
    } else {
        out.push(digit_char(m));
        assert(final(out)@ =~= old(out)@ + digits_of(m as nat));
    }
}

/// `n` written in decimal, as `n.to_string()` gives it.
pub fn decimal(n: i64) -> (res: String)
    ensures
        res@ == decimal_spec(n as int),
{
    let mut out: Vec<char> = Vec::new();
    if n < 0 {
        out.push('-');
        let m: u64 = if n == i64::MIN {
            9223372036854775808u64
        } else {
            (-n) as u64
        };
        push_digits(m, &mut out);
    } else {
        push_digits(n as u64, &mut out);
    }
    assert(out@ =~= decimal_spec(n as int));
    crate::text::string_from_chars(&out)
}

/// Reads `s` as a decimal integer in `min..=max`, as `str::parse` does for a
/// signed integer type with that range.
pub fn parse_integer(s: &str, min: i64, max: i64) -> (res: Option<i64>)
    requires
        i32::MIN <= min <= 0 <= max <= i32::MAX,
    ensures
        match res {
            Some(v) => parse_int_spec(s@, min as int, max as int) == Some(v as int),
            None => parse_int_spec(s@, min as int, max as int) is None,
        },
{
    let v = crate::text::chars_of(s);
    if v.len() == 0 {
        return None;
    }
    let negative = v[0] == '-';
    let start: usize = if v[0] == '+' || v[0] == '-' {
        1
    } else {
        0
    };
    let ghost body = if start == 1 {
        v@.drop_first()
    } else {
        v@
    };
    assert(body =~= v@.skip(start as int));
    if start == v.len() {
        return None;
    }
    let bound: i64 = if negative {
        -min
    } else {
        max
    };
    let mut acc: i64 = 0;
    let mut i: usize = start;
    assert(body.take(0) =~= Seq::<char>::empty());
    while i < v.len()
        invariant
            start <= i <= v.len(),
            start <= 1,
            v@ == s@,
            v@.len() > 0,
            (start == 1) == (v@[0] == '+' || v@[0] == '-'),
            negative == (v@[0] == '-'),
            bound == if negative { -min } else { max as int },
            i32::MIN <= min <= 0 <= max <= i32::MAX,
            body == v@.skip(start as int),
            0 <= acc <= bound,
            bound <= 2147483648,
            acc == digits_value(body.take(i - start)),
            all_digits(body.take(i - start)),
        decreases v.len() - i,
    {
        let c = v[i];
        let ghost k = i - start;
        assert(body[k] == c);
        if !(c >= '0' && c <= '9') {
            assert(!is_digit(body[k]));
            assert(!all_digits(body));
            assert(parse_int_spec(s@, min as int, max as int) is None);
            return None;
        }
        let d: i64 = if c == '0' {
            0
        } else if c == '1' {
            1
        } else if c == '2' {
            2
        } else if c == '3' {
            3
        } else if c == '4' {
            4
        } else if c == '5' {
            5
        } else if c == '6' {
            6
        } else if c == '7' {
            7
        } else if c == '8' {
            8
        } else {
            9
        };
        assert(d == digit_value(c));
        acc = acc * 10 + d;
        i += 1;
        assert(body.take(i - start).drop_last() =~= body.take(k));
        assert(acc == digits_value(body.take(i - start)));
        assert forall|j: int| 0 <= j < i - start implies #[trigger] is_digit(
            body.take(i - start)[j],
        ) by {
            if j < k {
                assert(body.take(i - start)[j] == body.take(k)[j]);
            }
        }
        if acc > bound {
            proof {
                if all_digits(body) {
                    lemma_digits_value_prefix(body, i - start);
                    assert(digits_value(body) > bound);
                }
                if start == 1 {
                    assert(body =~= s@.drop_first());
                } else {
                    assert(body =~= s@);
                }
                assert(parse_int_spec(s@, min as int, max as int) is None);
            }
            return None;
        }
    }
    assert(body.take(i - start) =~= body);
    if negative {
        Some(-acc)
    } else {
        Some(acc)
    }
}

/// Reads `s` as an `i32`, as `s.parse::<i32>()` does.
pub fn parse_i32(s: &str) -> (res: Option<i32>)
    ensures
        match res {
            Some(v) => parse_int_spec(s@, i32::MIN as int, i32::MAX as int) == Some(v as int),
            None => parse_int_spec(s@, i32::MIN as int, i32::MAX as int) is None,
        },
{
    match parse_integer(s, i32::MIN as i64, i32::MAX as i64) {
        Some(v) => Some(v as i32),
        None => None,
    }
}

/// Reads `s` as an `i8`, as `s.parse::<i8>()` does.
pub fn parse_i8(s: &str) -> (res: Option<i8>)
    ensures
        match res {
            Some(v) => parse_int_spec(s@, i8::MIN as int, i8::MAX as int) == Some(v as int),
            None => parse_int_spec(s@, i8::MIN as int, i8::MAX as int) is None,
        },
{
    match parse_integer(s, i8::MIN as i64, i8::MAX as i64) {
        Some(v) => Some(v as i8),
        None => None,
    }
}

} // verus!
