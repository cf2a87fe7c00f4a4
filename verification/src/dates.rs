//! Release dates arrive as text in one of three shapes — `YYYY`, `YYYY-MM` or
//! `YYYY-MM-DD` — and are stored as plain year/month/day values. A year-only
//! or year-month date is completed with the first month and day. Anything
//! else, including impossible calendar dates, is rejected.

use vstd::prelude::*;

use crate::model::{days_in_month, ReleaseDate};

verus! {

/// A decimal digit.
pub open spec fn is_digit_char(c: char) -> bool {
    '0' <= c && c <= '9'
}

/// Numeric value of a digit character.
pub open spec fn digit_of(c: char) -> int {
    c as int - '0' as int
}

/// Every character of `s` is a decimal digit.
pub open spec fn all_digits(s: Seq<char>) -> bool {
    forall|i: int| 0 <= i < s.len() ==> is_digit_char(#[trigger] s[i])
}

/// Value of a digit string, most significant digit first.
pub open spec fn digits_val(s: Seq<char>) -> int
    decreases s.len(),
{
    if s.len() == 0 {
        0
    } else {
        digits_val(s.drop_last()) * 10 + digit_of(s.last())
    }
}

/// Ten to the `n`.
pub open spec fn pow10(n: nat) -> int
    decreases n,
{
    if n == 0 {
        1
    } else {
        10 * pow10((n - 1) as nat)
    }
}

/// A digit string's value is bounded by ten to its length.
pub proof fn lemma_digits_val_bound(s: Seq<char>)
    requires
        all_digits(s),
    ensures
        0 <= digits_val(s) < pow10(s.len()),
    decreases s.len(),
{
    if s.len() > 0 {
        assert(all_digits(s.drop_last())) by {
            assert(forall|i: int|
                0 <= i < s.len() - 1 ==> #[trigger] s.drop_last()[i] == s[i]);
        }
        lemma_digits_val_bound(s.drop_last());
    }
}

/// Month and day completing a date; `None` when they do not form a real
/// calendar date.
pub open spec fn spec_check_date(y: int, m: int, d: int) -> Option<ReleaseDate> {
    if 0 <= y <= 9999 && 1 <= m <= 12 && 1 <= d && d <= days_in_month(y as u32, m as u8) as int {
        Some(ReleaseDate { year: y as u32, month: m as u8, day: d as u8 })
    } else {
        None
    }
}

/// The date denoted by release-date text, if any.
pub open spec fn spec_parse_release_date(s: Seq<char>) -> Option<ReleaseDate> {
    if s.len() == 4 && all_digits(s) {
        spec_check_date(digits_val(s), 1, 1)
    } else if s.len() == 7 && s[4] == '-' && all_digits(s.subrange(0, 4)) && all_digits(
        s.subrange(5, 7),
    ) {
        spec_check_date(digits_val(s.subrange(0, 4)), digits_val(s.subrange(5, 7)), 1)
    } else if s.len() == 10 && s[4] == '-' && s[7] == '-' && all_digits(s.subrange(0, 4))
        && all_digits(s.subrange(5, 7)) && all_digits(s.subrange(8, 10)) {
        spec_check_date(
            digits_val(s.subrange(0, 4)),
            digits_val(s.subrange(5, 7)),
            digits_val(s.subrange(8, 10)),
        )
    } else {
        None
    }
}

/// Parse the fixed-width digit run `s[from..to]`.
fn parse_digits(s: &str, from: usize, to: usize) -> (r: Option<u32>)
    requires
        from <= to <= s@.len(),
        to - from <= 4,
    ensures
        match r {
            Some(v) => all_digits(s@.subrange(from as int, to as int)) && v == digits_val(
                s@.subrange(from as int, to as int),
            ),
            None => !all_digits(s@.subrange(from as int, to as int)),
        },
{
    let mut v: u32 = 0;
    let ghost whole = s@.subrange(from as int, to as int);
    for i in from..to
        invariant
            from <= i <= to <= s@.len(),
            to - from <= 4,
            whole == s@.subrange(from as int, to as int),
            all_digits(s@.subrange(from as int, i as int)),
            v == digits_val(s@.subrange(from as int, i as int)),
            v < pow10((i - from) as nat),
    {
        let c = s.get_char(i);
        if c < '0' || c > '9' {
            assert(s@.subrange(from as int, to as int)[i - from] == s@[i as int]);
            assert(!all_digits(s@.subrange(from as int, to as int)));
            return None;
        }
        let d = (c as u32) - 48;
        proof {
            reveal_with_fuel(pow10, 5);
            assert(pow10((i - from) as nat) <= 1000) by {
                if i - from == 0 {
                } else if i - from == 1 {
                } else if i - from == 2 {
                } else {
                    assert(i - from == 3);
                }
            }
            let pre = s@.subrange(from as int, i as int);
            let post = s@.subrange(from as int, i + 1);
            assert(post.drop_last() =~= pre);
            assert(post.last() == s@[i as int]);
            assert(all_digits(post)) by {
                assert(forall|j: int| 0 <= j < post.len() - 1 ==> post[j] == pre[j]);
            }
            assert(pow10((i + 1 - from) as nat) == 10 * pow10((i - from) as nat));
            assert(digit_of(s@[i as int]) == d);
        }
        v = v * 10 + d;
    }
    assert(s@.subrange(from as int, to as int) == s@.subrange(from as int, to as int));
    Some(v)
}

/// Number of days in `month` of `year`.
pub fn days_in_month_exec(year: u32, month: u8) -> (r: u8)
    ensures
        r == days_in_month(year, month),
{
    if month == 2 {
        if (year % 4 == 0 && year % 100 != 0) || year % 400 == 0 {
            29
        } else {
            28
        }
    } else if month == 4 || month == 6 || month == 9 || month == 11 {
        30
    } else {
        31
    }
}

/// Parse release-date text in one of the shapes `YYYY`, `YYYY-MM` or
/// `YYYY-MM-DD`; the missing parts default to the first month and day.
pub fn parse_release_date(s: &str) -> (r: Option<ReleaseDate>)
    ensures
        r == spec_parse_release_date(s@),
        r is Some ==> r->0.spec_valid(),
{
    let n = s.unicode_len();
    let (year, month, day): (u32, u32, u32) = if n == 4 {
        match parse_digits(s, 0, 4) {
            Some(y) => {
                assert(s@.subrange(0, 4) =~= s@);
                (y, 1, 1)
            },
            None => {
                assert(s@.subrange(0, 4) =~= s@);
                return None;
            },
        }
    } else if n == 7 {
        if s.get_char(4) != '-' {
            return None;
        }
        match (parse_digits(s, 0, 4), parse_digits(s, 5, 7)) {
            (Some(y), Some(m)) => (y, m, 1),
            _ => {
                return None;
            },
        }
    } else if n == 10 {
        if s.get_char(4) != '-' || s.get_char(7) != '-' {
            return None;
        }
        match (parse_digits(s, 0, 4), parse_digits(s, 5, 7), parse_digits(s, 8, 10)) {
            (Some(y), Some(m), Some(d)) => (y, m, d),
            _ => {
                return None;
            },
        }
    } else {
        return None;
    };
    proof {
        reveal_with_fuel(pow10, 5);
        if n == 4 {
            lemma_digits_val_bound(s@);
        } else {
            lemma_digits_val_bound(s@.subrange(0, 4));
            lemma_digits_val_bound(s@.subrange(5, 7));
            if n == 10 {
                lemma_digits_val_bound(s@.subrange(8, 10));
            }
        }
    }
    if month < 1 || month > 12 {
        return None;
    }
    if day < 1 || day > days_in_month_exec(year, month as u8) as u32 {
        return None;
    }
    Some(ReleaseDate { year, month: month as u8, day: day as u8 })
}

} // verus!
