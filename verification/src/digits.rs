//! Decimal representations: integers printed as strings and strings read
//! back as integers, both against an exact decimal specification.

use vstd::prelude::*;

verus! {

/// The digit character of a value below ten.
pub open spec fn dec_digit(d: nat) -> char {
    if d == 0 {
        '0'
    } else if d == 1 {
        '1'
    } else if d == 2 {
        '2'
    } else if d == 3 {
        '3'
    } else if d == 4 {
        '4'
    } else if d == 5 {
        '5'
    } else if d == 6 {
        '6'
    } else if d == 7 {
        '7'
    } else if d == 8 {
        '8'
    } else {
        '9'
    }
}

/// The decimal digit string of a natural number, most significant first and
/// without leading zeroes (a single zero for zero itself).
pub open spec fn dec_rep(n: nat) -> Seq<char>
    decreases n,
{
    if n < 10 {
        seq![dec_digit(n)]
    } else {
        dec_rep(n / 10) + seq![dec_digit(n % 10)]
    }
}

/// The decimal string of an integer: a minus sign before the magnitude when
/// it is negative.
pub open spec fn int_rep(i: int) -> Seq<char> {
    if i >= 0 {
        dec_rep(i as nat)
    } else {
        seq!['-'] + dec_rep((-i) as nat)
    }
}

fn digit_str(d: u64) -> (r: &'static str)
    requires
        d < 10,
    ensures
        r@ == seq![dec_digit(d as nat)],
{
    let r: &'static str = match d {
        0 => "0",
        1 => "1",
        2 => "2",
        3 => "3",
        4 => "4",
        5 => "5",
        6 => "6",
        7 => "7",
        8 => "8",
        _ => "9",
    };
    proof {
        reveal_strlit("0");
        reveal_strlit("1");
        reveal_strlit("2");
        reveal_strlit("3");
        reveal_strlit("4");
        reveal_strlit("5");
        reveal_strlit("6");
        reveal_strlit("7");
        reveal_strlit("8");
        reveal_strlit("9");
        assert(r@ =~= seq![dec_digit(d as nat)]);
    }
    r
}

/// Prints a natural number in decimal.
pub fn u64_to_string(n: u64) -> (s: String)
    ensures
        s@ == dec_rep(n as nat),
    decreases n,
{
    if n < 10 {
        digit_str(n).to_owned()
    } else {
        let mut s = u64_to_string(n / 10);
        s.append(digit_str(n % 10));
        s
    }
}

/// Prints a signed integer in decimal.
pub fn i32_to_string(n: i32) -> (s: String)
    ensures
        s@ == int_rep(n as int),
{
    if n >= 0 {
        u64_to_string(n as u64)
    } else {
        let mag: u64 = (-(n as i64)) as u64;
        let mut s = String::from_str("-");
        proof {
            reveal_strlit("-");
            assert(s@ =~= seq!['-']);
        }
        let digits = u64_to_string(mag);
        s.append(digits.as_str());
        s
    }
}

/// Whether a character is a decimal digit.
pub open spec fn is_dec_digit(c: char) -> bool {
    '0' <= c && c <= '9'
}

/// The value of a decimal digit character.
pub open spec fn digit_val(c: char) -> nat {
    (c as nat - '0' as nat) as nat
}

/// Whether every character of `s` is a decimal digit.
pub open spec fn all_digits(s: Seq<char>) -> bool {
    forall|i: int| 0 <= i < s.len() ==> is_dec_digit(s[i])
}

/// The numeric value of a digit string.
pub open spec fn dec_val(s: Seq<char>) -> nat
    decreases s.len(),
{
    if s.len() == 0 {
        0
    } else {
        dec_val(s.drop_last()) * 10 + digit_val(s.last())
    }
}

/// A valid unsigned decimal literal: an optional plus sign, then at least
/// one digit.
pub open spec fn is_udec(s: Seq<char>) -> bool {
    if s.len() >= 1 && s[0] == '+' {
        s.len() >= 2 && all_digits(s.skip(1))
    } else {
        s.len() >= 1 && all_digits(s)
    }
}

/// The magnitude named by an unsigned decimal literal.
pub open spec fn udec_val(s: Seq<char>) -> nat {
    if s.len() >= 1 && s[0] == '+' {
        dec_val(s.skip(1))
    } else {
        dec_val(s)
    }
}

/// A longer digit string never names a smaller value.
proof fn lemma_dec_val_prefix(s: Seq<char>, i: int)
    requires
        0 <= i <= s.len(),
    ensures
        dec_val(s) >= dec_val(s.take(i)),
    decreases s.len() - i,
{
    if i < s.len() {
        lemma_dec_val_prefix(s, i + 1);
        assert(s.take(i + 1).drop_last() =~= s.take(i));
        assert(s.take(i + 1).last() == s[i]);
        assert(dec_val(s.take(i + 1)) == dec_val(s.take(i)) * 10 + digit_val(s[i]));
    } else {
        assert(s.take(i) =~= s);
    }
}

/// Reads an unsigned decimal literal, as `str::parse` does for unsigned
/// integers: `None` on an empty string, a stray character or a value that
/// does not fit below `cap`.
pub fn parse_u64_capped(s: &str, cap: u64) -> (r: Option<u64>)
    ensures
        r == (if is_udec(s@) && udec_val(s@) <= cap as nat {
            Some((udec_val(s@) as u64) as u64)
        } else {
            None::<u64>
        }),
{
    let n = s.unicode_len();
    if n == 0 {
        return None;
    }
    let has_sign = s.get_char(0) == '+';
    let start: usize = if has_sign {
        1
    } else {
        0
    };
    if n <= start {
        return None;
    }
    let ghost digits = if has_sign {
        s@.skip(1)
    } else {
        s@
    };
    let mut acc: u64 = 0;
    let mut i: usize = start;
    while i < n
        invariant
            start <= i <= n,
            n == s@.len(),
            start == 0 || start == 1,
            has_sign == (start == 1),
            has_sign ==> s@[0] == '+',
            !has_sign ==> s@[0] != '+',
            digits == (if has_sign {
                s@.skip(1)
            } else {
                s@
            }),
            start < n,
            acc <= cap,
            all_digits(s@.subrange(start as int, i as int)),
            acc as nat == dec_val(s@.subrange(start as int, i as int)),
        decreases n - i,
    {
        let c = s.get_char(i);
        if c < '0' || c > '9' {
            proof {
                assert(!is_dec_digit(s@[i as int]));
                if start == 1 {
                    assert(s@.skip(1)[i - 1] == s@[i as int]);
                    assert(!is_dec_digit(s@.skip(1)[i - 1]));
                    assert(!all_digits(s@.skip(1)));
                } else {
                    assert(!all_digits(s@));
                }
                assert(!is_udec(s@));
            }
            return None;
        }
        let d: u64 = (c as u32 as u64) - 48;
        proof {
            assert(d == digit_val(c));
        }
        if acc > cap / 10 || (acc == cap / 10 && d > cap % 10) {
            // the value would exceed the cap, and further digits only grow it
            proof {
                assert(s@.subrange(start as int, i as int + 1).drop_last() =~= s@.subrange(
                    start as int,
                    i as int,
                ));
                assert(s@.subrange(start as int, i as int + 1).last() == s@[i as int]);
                assert(dec_val(s@.subrange(start as int, i as int + 1)) > cap as nat) by {
                    assert(dec_val(s@.subrange(start as int, i as int + 1)) == (acc as nat) * 10
                        + digit_val(c));
                };
                assert(s@.subrange(start as int, n as int).take(i - start + 1) =~= s@.subrange(
                    start as int,
                    i as int + 1,
                ));
                lemma_dec_val_prefix(s@.subrange(start as int, n as int), i - start + 1);
                assert(digits =~= s@.subrange(start as int, n as int));
            }
            return None;
        }
        proof {
            assert(s@.subrange(start as int, i as int + 1).drop_last() =~= s@.subrange(
                start as int,
                i as int,
            ));
            assert(s@.subrange(start as int, i as int + 1).last() == s@[i as int]);
        }
        acc = acc * 10 + d;
        i += 1;
    }
    proof {
        assert(s@.subrange(start as int, n as int) =~= digits);
        assert(is_udec(s@));
        assert(udec_val(s@) == acc as nat);
    }
    Some(acc)
}

/// A valid signed decimal literal: an optional sign, then at least one digit.
pub open spec fn is_sdec(s: Seq<char>) -> bool {
    if s.len() >= 1 && s[0] == '-' {
        s.len() >= 2 && all_digits(s.skip(1))
    } else {
        is_udec(s)
    }
}

/// The integer named by a signed decimal literal.
pub open spec fn sdec_val(s: Seq<char>) -> int {
    if s.len() >= 1 && s[0] == '-' {
        -(dec_val(s.skip(1)) as int)
    } else {
        udec_val(s) as int
    }
}

/// The value `str::parse::<i32>` followed by `unwrap_or_default` yields: the
/// named integer when the text is a decimal literal in range, and zero
/// otherwise.
pub open spec fn i32_or_zero(s: Seq<char>) -> int {
    if is_sdec(s) && i32::MIN <= sdec_val(s) <= i32::MAX {
        sdec_val(s)
    } else {
        0
    }
}

/// Reads a signed decimal literal as `str::parse::<i32>().unwrap_or_default()`
/// does: any malformed or out-of-range text collapses to zero.
pub fn parse_i32_or_zero(s: &str) -> (r: i32)
    ensures
        r as int == i32_or_zero(s@),
{
    let n = s.unicode_len();
    if n >= 1 && s.get_char(0) == '-' {
        if n < 2 {
            return 0;
        }
        let rest = s.substring_char(1, n);
        proof {
            assert(rest@ =~= s@.skip(1));
        }
        if rest.get_char(0) == '+' {
            proof {
                assert(!is_dec_digit('+'));
                assert(!is_sdec(s@));
            }
            return 0;
        }
        match parse_u64_capped(rest, 2147483648u64) {
            Some(mag) => {
                proof {
                    assert(rest@.len() >= 1);
                    assert(!(rest@[0] == '+')) by {
                        if rest@[0] == '+' {
                            assert(!is_dec_digit('+'));
                        }
                    }
                    assert(is_sdec(s@));
                }
                if mag == 2147483648u64 {
                    i32::MIN
                } else {
                    -(mag as i32)
                }
            },
            None => {
                proof {
                    if is_sdec(s@) && i32::MIN <= sdec_val(s@) <= i32::MAX {
                        assert(is_udec(rest@));
                        assert(udec_val(rest@) <= 2147483648nat);
                    }
                }
                0
            },
        }
    } else {
        match parse_u64_capped(s, 2147483647u64) {
            Some(v) => v as i32,
            None => 0,
        }
    }
}

} // verus!
