//! Text syntax for user input: decimal integers and the heuristic,
//! human-friendly date forms.
//!
//! Date text is tried against a cascade of interpretations, taking the first
//! whose shape fits: a full `YYYY-MM-DD` date, then `DD/MM/YYYY`, then
//! `DD/MM` with the current year, then `DD` alone with the current month and
//! year.

use vstd::prelude::*;

use crate::date::{valid_date, Date};
use crate::errors::Error;
use crate::text::chars_vec;

verus! {

/// True when `c` is an ASCII decimal digit.
pub open spec fn is_digit(c: char) -> bool {
    '0' as int <= c as int && c as int <= '9' as int
}

/// Numeric value of an ASCII decimal digit.
pub open spec fn digit_val(c: char) -> int {
    c as int - '0' as int
}

/// True when every character of `s` is an ASCII decimal digit.
pub open spec fn all_digits(s: Seq<char>) -> bool {
    forall|i: int| 0 <= i < s.len() ==> is_digit(#[trigger] s[i])
}

/// The number that the digit characters of `s` spell, most significant
/// first.
pub open spec fn digits_val(s: Seq<char>) -> int
    decreases s.len(),
{
    if s.len() == 0 {
        0
    } else {
        digits_val(s.drop_last()) * 10 + digit_val(s.last())
    }
}

/// Length of the longest run of digit characters at the start of `s`.
pub open spec fn digits_prefix(s: Seq<char>) -> int
    decreases s.len(),
{
    if s.len() > 0 && is_digit(s[0]) {
        1 + digits_prefix(s.drop_first())
    } else {
        0
    }
}

/// Ten to the power `n`.
pub open spec fn pow10(n: nat) -> int
    decreases n,
{
    if n == 0 {
        1
    } else {
        10 * pow10((n - 1) as nat)
    }
}

proof fn lemma_digits_prefix_is(s: Seq<char>, n: int)
    requires
        0 <= n <= s.len(),
        forall|i: int| 0 <= i < n ==> is_digit(#[trigger] s[i]),
        n < s.len() ==> !is_digit(s[n]),
    ensures
        digits_prefix(s) == n,
    decreases s.len(),
{
    if s.len() > 0 && is_digit(s[0]) {
        assert(n > 0);
        lemma_digits_prefix_is(s.drop_first(), n - 1);
    }
}

/// Dropping a leading zero does not change the number the digits spell.
proof fn lemma_digits_val_leading_zero(s: Seq<char>)
    requires
        s.len() > 0,
        s[0] == '0',
    ensures
        digits_val(s) == digits_val(s.drop_first()),
    decreases s.len(),
{
    assert(digits_val(s) == digits_val(s.drop_last()) * 10 + digit_val(s.last()));
    if s.len() == 1 {
        assert(s.last() == s[0]);
        assert(digits_val(s.drop_last()) == 0);
        assert(digits_val(s.drop_first()) == 0);
        assert(digit_val('0') == 0);
    } else {
        assert(s.drop_last()[0] == s[0]);
        lemma_digits_val_leading_zero(s.drop_last());
        assert(s.drop_last().drop_first() =~= s.drop_first().drop_last());
        assert(s.drop_first().last() == s.last());
        assert(digits_val(s.drop_first()) == digits_val(s.drop_first().drop_last()) * 10
            + digit_val(s.drop_first().last()));
    }
}

proof fn lemma_all_digits_drop_last(s: Seq<char>)
    requires
        all_digits(s),
        s.len() > 0,
    ensures
        all_digits(s.drop_last()),
        is_digit(s.last()),
{
    assert forall|i: int| 0 <= i < s.drop_last().len() implies is_digit(
        #[trigger] s.drop_last()[i],
    ) by {
        assert(s.drop_last()[i] == s[i]);
    }
    assert(is_digit(s[s.len() - 1]));
}

proof fn lemma_digits_val_lower(s: Seq<char>)
    requires
        all_digits(s),
        s.len() > 0,
        s[0] != '0',
    ensures
        digits_val(s) >= pow10((s.len() - 1) as nat),
    decreases s.len(),
{
    assert(digits_val(s) == digits_val(s.drop_last()) * 10 + digit_val(s.last()));
    if s.len() == 1 {
        assert(s.last() == s[0]);
        assert(digits_val(s.drop_last()) == 0);
        assert(is_digit(s[0]));
        assert(digit_val(s[0]) >= 1);
        assert(pow10(0) == 1);
    } else {
        lemma_all_digits_drop_last(s);
        assert(s.drop_last()[0] == s[0]);
        lemma_digits_val_lower(s.drop_last());
        assert(0 <= digit_val(s.last()));
        assert(pow10((s.len() - 1) as nat) == 10 * pow10((s.len() - 2) as nat));
    }
}

proof fn lemma_pow10_pos(n: nat)
    ensures
        pow10(n) >= 1,
    decreases n,
{
    if n > 0 {
        lemma_pow10_pos((n - 1) as nat);
    }
}

proof fn lemma_pow10_mono(a: nat, b: nat)
    requires
        a <= b,
    ensures
        1 <= pow10(a) <= pow10(b),
    decreases b,
{
    lemma_pow10_pos(a);
    if a < b {
        lemma_pow10_mono(a, (b - 1) as nat);
    }
}

/// The date, if any, that `y`, `m` and `d` name.
pub open spec fn checked_date(y: int, m: int, d: int) -> Option<Date> {
    if valid_date(y, m, d) {
        Some(Date { year: y as u32, month: m as u32, day: d as u32 })
    } else {
        None
    }
}

/// The date that the text `s` names, read against `today` for the forms
/// that leave the year or the month implicit, or `None` when no
/// interpretation fits.
pub open spec fn date_of_text(s: Seq<char>, today: Date) -> Option<Date> {
    let dp = digits_prefix(s);
    if dp == 4 && dp < s.len() && s[4] == '-' {
        iso_tail(s, today)
    } else if !(1 <= dp <= 2) {
        None
    } else if dp == s.len() {
        // day alone: the current month and year
        checked_date(today.year as int, today.month as int, digits_val(s))
    } else if s[dp] != '/' {
        None
    } else {
        slash_tail(s, dp, today)
    }
}

/// The `MM-DD` part of a full date, after a four-digit year and a dash.
pub open spec fn iso_tail(s: Seq<char>, today: Date) -> Option<Date> {
    let rest = s.subrange(5, s.len() as int);
    let mp = digits_prefix(rest);
    if 1 <= mp <= 2 && mp < rest.len() && rest[mp] == '-' {
        let day = rest.subrange(mp + 1, rest.len() as int);
        if 1 <= day.len() <= 2 && all_digits(day) {
            checked_date(
                digits_val(s.subrange(0, 4)),
                digits_val(rest.subrange(0, mp)),
                digits_val(day),
            )
        } else {
            None
        }
    } else {
        None
    }
}

/// What follows the day and the first slash: either a month alone, read
/// against the current year, or a month, a second slash and a four-digit
/// year.
pub open spec fn slash_tail(s: Seq<char>, dp: int, today: Date) -> Option<Date> {
    let rest = s.subrange(dp + 1, s.len() as int);
    let mp = digits_prefix(rest);
    if !(1 <= mp <= 2) {
        None
    } else if mp == rest.len() {
        // day and month: the current year
        checked_date(today.year as int, digits_val(rest), digits_val(s.subrange(0, dp)))
    } else if rest[mp] != '/' {
        None
    } else {
        let year = rest.subrange(mp + 1, rest.len() as int);
        if year.len() == 4 && all_digits(year) {
            checked_date(
                digits_val(year),
                digits_val(rest.subrange(0, mp)),
                digits_val(s.subrange(0, dp)),
            )
        } else {
            None
        }
    }
}

/// How a parse of date text `s` against `today` must come out: the named
/// date on a fitting interpretation, and a date error otherwise.
pub open spec fn date_parse_outcome(s: Seq<char>, today: Date, r: Result<Date, Error>) -> bool {
    match date_of_text(s, today) {
        Some(d) => r == Ok::<Date, Error>(d),
        None => r == Err::<Date, Error>(Error::DateError),
    }
}

/// The integer, if any, that the text `s` spells: an optional sign, then at
/// least one decimal digit, naming a value within the `i32` range.
pub open spec fn i32_of_text(s: Seq<char>) -> Option<int> {
    let body = if s.len() > 0 && (s[0] == '-' || s[0] == '+') {
        s.drop_first()
    } else {
        s
    };
    let neg = s.len() > 0 && s[0] == '-';
    if body.len() > 0 && all_digits(body) {
        let v = if neg {
            -digits_val(body)
        } else {
            digits_val(body)
        };
        if i32::MIN <= v <= i32::MAX {
            Some(v)
        } else {
            None
        }
    } else {
        None
    }
}

/// Leading zeros do not change the number the digits spell.
proof fn lemma_digits_val_zeros(t: Seq<char>, k: int)
    requires
        0 <= k <= t.len(),
        forall|i: int| 0 <= i < k ==> t[i] == '0',
    ensures
        digits_val(t) == digits_val(t.subrange(k, t.len() as int)),
    decreases k,
{
    if k == 0 {
        assert(t.subrange(0, t.len() as int) =~= t);
    } else {
        lemma_digits_val_leading_zero(t);
        assert forall|i: int| 0 <= i < k - 1 implies t.drop_first()[i] == '0' by {
            assert(t.drop_first()[i] == t[i + 1]);
        }
        lemma_digits_val_zeros(t.drop_first(), k - 1);
        assert(t.drop_first().subrange(k - 1, t.drop_first().len() as int) =~= t.subrange(
            k,
            t.len() as int,
        ));
    }
}

/// Reads `input` as a signed 32-bit integer, accepting an optional sign
/// followed by decimal digits.
pub fn parse_i32(input: &str) -> (r: Result<i32, Error>)
    ensures
        match i32_of_text(input@) {
            Some(v) => r matches Ok(x) && x == v,
            None => r == Err::<i32, Error>(Error::ParseError),
        },
{
    let v = chars_vec(input);
    let ghost s = input@;
    let n = v.len();
    let start: usize = if n > 0 && (v[0] == '-' || v[0] == '+') {
        1
    } else {
        0
    };
    let neg = n > 0 && v[0] == '-';
    let ghost body = if start == 1 {
        s.drop_first()
    } else {
        s
    };
    proof {
        assert(s.subrange(start as int, n as int) =~= body);
    }
    let e = digit_run(&v, start);
    if start == n || e < n {
        proof {
            if e < n {
                assert(body[e - start] == s[e as int]);
            }
        }
        return Err(Error::ParseError);
    }
    proof {
        assert forall|i: int| 0 <= i < body.len() implies is_digit(#[trigger] body[i]) by {
            assert(body[i] == s[i + start]);
        }
    }
    // skip leading zeros, then read at most ten digits
    let mut z: usize = start;
    while z < n && v[z] == '0'
        invariant
            start <= z <= n,
            n == v.len(),
            forall|i: int| start <= i < z ==> v@[i] == '0',
        decreases n - z,
    {
        z = z + 1;
    }
    proof {
        assert forall|i: int| 0 <= i < z - start implies body[i] == '0' by {
            assert(body[i] == s[i + start]);
        }
        lemma_digits_val_zeros(body, z - start as int);
        assert(body.subrange(z - start as int, body.len() as int) =~= s.subrange(
            z as int,
            n as int,
        ));
    }
    let ghost digits = s.subrange(z as int, n as int);
    if n - z > 10 {
        proof {
            assert(digits[0] == s[z as int]);
            assert forall|i: int| 0 <= i < digits.len() implies is_digit(#[trigger] digits[i]) by {
                assert(digits[i] == s[i + z]);
            }
            lemma_digits_val_lower(digits);
            lemma_pow10_mono(10, (digits.len() - 1) as nat);
            reveal_with_fuel(pow10, 11);
        }
        return Err(Error::ParseError);
    }
    let mut acc: i64 = 0;
    let mut i: usize = z;
    proof {
        assert(s.subrange(z as int, z as int) =~= Seq::<char>::empty());
    }
    while i < n
        invariant
            z <= i <= n,
            n == v.len(),
            n - z <= 10,
            s == v@,
            forall|j: int| z <= j < n ==> is_digit(#[trigger] v@[j]),
            acc == digits_val(s.subrange(z as int, i as int)),
            0 <= acc < pow10((i - z) as nat),
        decreases n - i,
    {
        let c = v[i];
        let d: i64 = ((c as u32) - ('0' as u32)) as i64;
        proof {
            reveal_with_fuel(pow10, 11);
            assert(s.subrange(z as int, i as int + 1).drop_last() =~= s.subrange(
                z as int,
                i as int,
            ));
            assert(s.subrange(z as int, i as int + 1).last() == s[i as int]);
        }
        acc = acc * 10 + d;
        i = i + 1;
    }
    proof {
        reveal_with_fuel(pow10, 11);
        assert(digits_val(body) == acc);
    }
    if neg {
        if acc <= 2147483648i64 {
            Ok((-acc) as i32)
        } else {
            Err(Error::ParseError)
        }
    } else {
        if acc <= 2147483647i64 {
            Ok(acc as i32)
        } else {
            Err(Error::ParseError)
        }
    }
}

/// Reads `input` as a calendar date against today's date from the system
/// clock, so the short forms fill in the current month and year.
pub fn parse_date_now(input: &str) -> (r: Result<Date, Error>)
    ensures
        exists|t: Date| t.is_valid() && date_parse_outcome(input@, t, r),
{
    let today = Date::today();
    let r = parse_date(input, &today);
    proof {
        assert(today.is_valid() && date_parse_outcome(input@, today, r));
    }
    r
}

/// First index at or after `from` whose character is not a digit, or the
/// text's length when digits run to its end.
fn digit_run(v: &Vec<char>, from: usize) -> (n: usize)
    requires
        from <= v.len(),
    ensures
        from <= n <= v.len(),
        forall|i: int| from <= i < n ==> is_digit(#[trigger] v@[i]),
        n < v.len() ==> !is_digit(v@[n as int]),
{
    let mut n: usize = from;
    while n < v.len()
        invariant
            from <= n <= v.len(),
            forall|i: int| from <= i < n ==> is_digit(#[trigger] v@[i]),
        decreases v.len() - n,
    {
        let c = v[n];
        if !('0' <= c && c <= '9') {
            return n;
        }
        n = n + 1;
    }
    n
}

/// The number that the digits of `v` between `from` and `to` spell.
fn seg_val(v: &Vec<char>, from: usize, to: usize) -> (r: u32)
    requires
        from <= to <= v.len(),
        to - from <= 4,
        forall|i: int| from <= i < to ==> is_digit(#[trigger] v@[i]),
    ensures
        r == digits_val(v@.subrange(from as int, to as int)),
        r <= 9999,
{
    let mut r: u32 = 0;
    let mut i: usize = from;
    proof {
        assert(v@.subrange(from as int, from as int) =~= Seq::<char>::empty());
    }
    while i < to
        invariant
            from <= i <= to <= v.len(),
            to - from <= 4,
            forall|j: int| from <= j < to ==> is_digit(#[trigger] v@[j]),
            r == digits_val(v@.subrange(from as int, i as int)),
            0 <= r < pow10((i - from) as nat),
        decreases to - i,
    {
        let c = v[i];
        let d: u32 = (c as u32) - ('0' as u32);
        proof {
            reveal_with_fuel(pow10, 5);
            assert(v@.subrange(from as int, i as int + 1).drop_last() =~= v@.subrange(
                from as int,
                i as int,
            ));
            assert(v@.subrange(from as int, i as int + 1).last() == v@[i as int]);
        }
        r = r * 10 + d;
        i = i + 1;
    }
    proof {
        reveal_with_fuel(pow10, 5);
    }
    r
}

/// Reads `input` as a calendar date, trying each accepted form in turn and
/// reading the forms with an implicit year or month against `today`.
pub fn parse_date(input: &str, today: &Date) -> (r: Result<Date, Error>)
    requires
        today.is_valid(),
    ensures
        date_parse_outcome(input@, *today, r),
{
    let v = chars_vec(input);
    let ghost s = input@;
    let n = v.len();
    let dp = digit_run(&v, 0);
    proof {
        lemma_digits_prefix_is(s, dp as int);
    }
    if dp == 4 && dp < n && v[4] == '-' {
        // YYYY-MM-DD
        let ghost rest = s.subrange(5, s.len() as int);
        let me = digit_run(&v, 5);
        proof {
            assert forall|i: int| 0 <= i < me - 5 implies is_digit(#[trigger] rest[i]) by {
                assert(rest[i] == s[i + 5]);
            }
            if me < n {
                assert(rest[me - 5] == s[me as int]);
            }
            lemma_digits_prefix_is(rest, me - 5);
        }
        if 5 <= me && me <= 7 && me < n && v[me] == '-' {
            let de = digit_run(&v, me + 1);
            proof {
                let day = rest.subrange(me - 5 + 1, rest.len() as int);
                assert forall|i: int| me + 1 <= i < de implies is_digit(#[trigger] s[i]) by {}
                if de == n && 1 <= n - (me + 1) <= 2 {
                    assert forall|i: int| 0 <= i < day.len() implies is_digit(
                        #[trigger] day[i],
                    ) by {
                        assert(day[i] == s[i + me + 1]);
                    }
                } else {
                    if de < n {
                        assert(day.len() > de - (me + 1) >= 0);
                        assert(day[de - (me + 1)] == s[de as int]);
                        assert(!all_digits(day) || !(1 <= day.len() <= 2)) by {
                            if 1 <= day.len() <= 2 {
                                assert(!is_digit(day[de - (me + 1)]));
                            }
                        }
                    }
                }
            }
            if de == n && me + 1 < n && n - (me + 1) <= 2 {
                let y = seg_val(&v, 0, 4);
                let m = seg_val(&v, 5, me);
                let d = seg_val(&v, me + 1, n);
                proof {
                    assert(rest.subrange(0, me - 5) =~= s.subrange(5, me as int));
                    assert(rest.subrange(me - 5 + 1, rest.len() as int) =~= s.subrange(
                        me + 1,
                        n as int,
                    ));
                }
                match Date::new(y, m, d) {
                    Some(date) => Ok(date),
                    None => Err(Error::DateError),
                }
            } else {
                Err(Error::DateError)
            }
        } else {
            Err(Error::DateError)
        }
    } else if !(1 <= dp && dp <= 2) {
        Err(Error::DateError)
    } else if dp == n {
        // DD
        let d = seg_val(&v, 0, n);
        proof {
            assert(s.subrange(0, n as int) =~= s);
        }
        match Date::new(today.year, today.month, d) {
            Some(date) => Ok(date),
            None => Err(Error::DateError),
        }
    } else if !(v[dp] == '/') {
        Err(Error::DateError)
    } else {
        let ghost rest = s.subrange(dp + 1, s.len() as int);
        let me = digit_run(&v, dp + 1);
        proof {
            assert forall|i: int| 0 <= i < me - (dp + 1) implies is_digit(#[trigger] rest[i]) by {
                assert(rest[i] == s[i + dp + 1]);
            }
            if me < n {
                assert(rest[me - (dp + 1)] == s[me as int]);
            }
            lemma_digits_prefix_is(rest, me - (dp + 1));
        }
        if !(1 <= me - (dp + 1) && me - (dp + 1) <= 2) {
            Err(Error::DateError)
        } else if me == n {
            // DD/MM
            let d = seg_val(&v, 0, dp);
            let m = seg_val(&v, dp + 1, n);
            proof {
                assert(rest =~= s.subrange(dp + 1, n as int));
            }
            match Date::new(today.year, m, d) {
                Some(date) => Ok(date),
                None => Err(Error::DateError),
            }
        } else if !(v[me] == '/') {
            Err(Error::DateError)
        } else {
            // DD/MM/YYYY
            let ghost year = rest.subrange(me - (dp + 1) + 1, rest.len() as int);
            let ye = digit_run(&v, me + 1);
            proof {
                if ye == n && n - (me + 1) == 4 {
                    assert forall|i: int| 0 <= i < year.len() implies is_digit(
                        #[trigger] year[i],
                    ) by {
                        assert(year[i] == s[i + me + 1]);
                    }
                } else {
                    if ye < n {
                        assert(year.len() > ye - (me + 1) >= 0);
                        assert(year[ye - (me + 1)] == s[ye as int]);
                        if year.len() == 4 {
                            assert(!is_digit(year[ye - (me + 1)]));
                        }
                    }
                }
            }
            if ye == n && n - (me + 1) == 4 {
                let d = seg_val(&v, 0, dp);
                let m = seg_val(&v, dp + 1, me);
                let y = seg_val(&v, me + 1, n);
                proof {
                    assert(rest.subrange(0, me - (dp + 1)) =~= s.subrange(dp + 1, me as int));
                    assert(year =~= s.subrange(me + 1, n as int));
                }
                match Date::new(y, m, d) {
                    Some(date) => Ok(date),
                    None => Err(Error::DateError),
                }
            } else {
                Err(Error::DateError)
            }
        }
    }
}

} // verus!
