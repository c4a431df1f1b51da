//! The command-line side of compatibility diagnostics: report windows such
//! as `24h` or `7d`.
use vstd::prelude::*;

use crate::text::{append_str, chars_of};

verus! {

broadcast use vstd::string::group_string_axioms;

/// All characters are ASCII digits, and there is at least one.
pub open spec fn all_digits(s: Seq<char>) -> bool {
    s.len() > 0 && forall|i: int| 0 <= i < s.len() ==> '0' <= #[trigger] s[i] <= '9'
}

/// The number that decimal digits spell.
pub open spec fn digits_value(s: Seq<char>) -> nat
    decreases s.len(),
{
    if s.len() == 0 {
        0
    } else {
        digits_value(s.drop_last()) * 10 + ((s.last() as u32) - 48) as nat
    }
}

/// What `str::parse::<u64>` gives: an optional `+`, then decimal digits
/// whose value fits in 64 bits.
pub open spec fn parsed_u64(s: Seq<char>) -> Option<u64> {
    let d = if s.len() > 0 && s[0] == '+' {
        s.drop_first()
    } else {
        s
    };
    if all_digits(d) && digits_value(d) <= u64::MAX {
        Some(digits_value(d) as u64)
    } else {
        None
    }
}

proof fn lemma_digits_value_grows(s: Seq<char>, i: int)
    requires
        0 <= i <= s.len(),
        forall|j: int| 0 <= j < s.len() ==> '0' <= #[trigger] s[j] <= '9',
    ensures
        digits_value(s.take(i)) <= digits_value(s),
    decreases s.len() - i,
{
    if i < s.len() {
        lemma_digits_value_grows(s, i + 1);
        assert(s.take(i + 1).drop_last() =~= s.take(i));
    } else {
        assert(s.take(i) =~= s);
    }
}

/// Parses an unsigned decimal number as `str::parse::<u64>` does.
pub fn parse_u64(s: &str) -> (r: Option<u64>)
    ensures
        r == parsed_u64(s@),
{
    let cs = chars_of(s);
    let n = cs.len();
    let start: usize = if n > 0 && cs[0] == '+' {
        1
    } else {
        0
    };
    let ghost d = if s@.len() > 0 && s@[0] == '+' {
        s@.drop_first()
    } else {
        s@
    };
    assert(d =~= cs@.subrange(start as int, n as int));
    if start == n {
        return None;
    }
    let mut v: u64 = 0;
    let mut i = start;
    assert(d.take(0) =~= Seq::<char>::empty());
    while i < n
        invariant
            start <= i <= n,
            n == cs@.len(),
            d =~= cs@.subrange(start as int, n as int),
            cs@ == s@,
            d == (if s@.len() > 0 && s@[0] == '+' {
                s@.drop_first()
            } else {
                s@
            }),
            forall|j: int| start <= j < i ==> '0' <= #[trigger] cs@[j] <= '9',
            v as nat == digits_value(d.take(i - start)),
        decreases n - i,
    {
        let c = cs[i];
        if c < '0' || c > '9' {
            assert(d[i - start] == c);
            assert(!all_digits(d));
            return None;
        }
        let digit = (c as u32 - 48) as u64;
        assert(d.take(i - start + 1).drop_last() =~= d.take(i - start));
        assert(d.take(i - start + 1).last() == c);
        let next = match v.checked_mul(10) {
            Some(t) => t.checked_add(digit),
            None => None,
        };
        match next {
            Some(w) => {
                v = w;
            },
            None => {
                proof {
                    assert(digits_value(d.take(i - start + 1)) == digits_value(d.take(i - start)) * 10
                        + digit);
                    assert(digits_value(d.take(i - start + 1)) > u64::MAX);
                    if all_digits(d) {
                        lemma_digits_value_grows(d, i - start + 1);
                    }
                }
                return None;
            },
        }
        i = i + 1;
    }
    assert(d.take(n - start) =~= d);
    Some(v)
}

/// The seconds of a report window: a number followed by `h` (hours) or `d`
/// (days).
pub open spec fn window_seconds(value: Seq<char>) -> Result<u64, Seq<char>> {
    let number = if value.len() > 0 {
        value.drop_last()
    } else {
        value
    };
    let unit = if value.len() > 0 {
        seq![value.last()]
    } else {
        Seq::empty()
    };
    match parsed_u64(number) {
        None => Err("invalid diagnostics window: "@ + value),
        Some(n) => {
            let factor: int = if unit == seq!['h'] {
                3600
            } else if unit == seq!['d'] {
                86400
            } else {
                0
            };
            if factor == 0 || n * factor > u64::MAX {
                Err("invalid diagnostics window: "@ + value + "; use Nh or Nd"@)
            } else {
                Ok((n * factor) as u64)
            }
        },
    }
}

/// Parses a report window such as `24h` or `7d` into seconds. The number is
/// everything before the last character, which must be a one-byte
/// character (the unit).
pub fn parse_window(value: &str) -> (r: Result<u64, String>)
    requires
        value@.len() == 0 || (value@.last() as u32) < 0x80,
    ensures
        match r {
            Ok(seconds) => window_seconds(value@) == Ok::<u64, Seq<char>>(seconds),
            Err(m) => window_seconds(value@) == Err::<u64, Seq<char>>(m@),
        },
{
    let cs = chars_of(value);
    let n = cs.len();
    let mut number: Vec<char> = Vec::new();
    let mut i: usize = 0;
    let end = if n > 0 {
        n - 1
    } else {
        0
    };
    while i < end
        invariant
            i <= end <= n,
            n == cs@.len(),
            number@ == cs@.take(i as int),
        decreases end - i,
    {
        number.push(cs[i]);
        assert(cs@.take(i + 1) =~= cs@.take(i as int).push(cs@[i as int]));
        i = i + 1;
    }
    let number_text = crate::text::string_from_chars(number.as_slice());
    proof {
        if n > 0 {
            assert(cs@.take(end as int) =~= value@.drop_last());
        } else {
            assert(cs@.take(0) =~= value@);
        }
    }
    let parsed = parse_u64(number_text.as_str());
    let mut message = "invalid diagnostics window: ".to_owned();
    append_str(&mut message, value);
    let count = match parsed {
        Some(c) => c,
        None => {
            return Err(message);
        },
    };
    let factor: u64 = if n > 0 && cs[n - 1] == 'h' {
        3600
    } else if n > 0 && cs[n - 1] == 'd' {
        86400
    } else {
        0
    };
    proof {
        if n > 0 {
            assert(seq![value@.last()] == seq!['h'] <==> value@.last() == 'h') by {
                if seq![value@.last()] == seq!['h'] {
                    assert(seq![value@.last()][0] == 'h');
                }
            }
            assert(seq![value@.last()] == seq!['d'] <==> value@.last() == 'd') by {
                if seq![value@.last()] == seq!['d'] {
                    assert(seq![value@.last()][0] == 'd');
                }
            }
        } else {
            assert(Seq::<char>::empty() != seq!['h']) by {
                assert(seq!['h'].len() == 1);
            }
            assert(Seq::<char>::empty() != seq!['d']) by {
                assert(seq!['d'].len() == 1);
            }
        }
    }
    let seconds = if factor == 0 {
        None
    } else {
        count.checked_mul(factor)
    };
    match seconds {
        Some(s) => Ok(s),
        None => {
            append_str(&mut message, "; use Nh or Nd");
            Err(message)
        },
    }
}

} // verus!
