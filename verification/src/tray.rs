//! Helpers for the tray menu's entry labels: a human-readable size.
//!
//! The size is rendered in whole kibibytes under a mebibyte and in tenths
//! of mebibytes above, rounding half to even as the display formatting of
//! the standard library does.
use vstd::prelude::*;

verus! {

/// The decimal digit character for `d` in 0..10.
pub open spec fn spec_digit_char(d: int) -> char {
    if d == 0 {
        '0'
    } else if d == 1 {
        '1'
    } else if d == 2 {
        '2'
    } else if d == 3 {
        '3'
    } else if d == 4 {
        '4'
    } else if d == 5 {
        '5'
    } else if d == 6 {
        '6'
    } else if d == 7 {
        '7'
    } else if d == 8 {
        '8'
    } else {
        '9'
    }
}

/// The decimal rendering of a nonnegative integer.
pub open spec fn spec_decimal(n: int) -> Seq<char>
    decreases n,
{
    if n < 10 {
        seq![spec_digit_char(n)]
    } else {
        spec_decimal(n / 10).push(spec_digit_char(n % 10))
    }
}

/// `num / den` rounded to the nearest integer, ties to even.
pub open spec fn spec_round_half_even(num: int, den: int) -> int {
    let q = num / den;
    let r = num % den;
    if 2 * r > den {
        q + 1
    } else if 2 * r < den {
        q
    } else if q % 2 == 0 {
        q
    } else {
        q + 1
    }
}

/// The human-readable size: whole kibibytes with ` KB` under a mebibyte,
/// tenths of mebibytes with ` MB` from a mebibyte up.
pub open spec fn spec_human_size(size: int) -> Seq<char> {
    if size < 0x100000 {
        spec_decimal(spec_round_half_even(size, 1024)) + " KB"@
    } else {
        let tenths = spec_round_half_even(size * 10, 0x100000);
        spec_decimal(tenths / 10) + "."@ + spec_decimal(tenths % 10) + " MB"@
    }
}

/// One decimal digit as a string.
fn digit_string(d: u64) -> (r: String)
    requires
        d < 10,
    ensures
        r@ == seq![spec_digit_char(d as int)],
{
    proof {
        reveal_strlit("0");
        reveal_strlit("1");
        reveal_strlit("2");
        reveal_strlit("3");
        reveal_strlit("4");
        reveal_strlit("5");
        reveal_strlit("6");
        reveal_strlit("7");
        reveal_strlit("8");
        reveal_strlit("9");
    }
    if d == 0 {
        String::from_str("0")
    } else if d == 1 {
        String::from_str("1")
    } else if d == 2 {
        String::from_str("2")
    } else if d == 3 {
        String::from_str("3")
    } else if d == 4 {
        String::from_str("4")
    } else if d == 5 {
        String::from_str("5")
    } else if d == 6 {
        String::from_str("6")
    } else if d == 7 {
        String::from_str("7")
    } else if d == 8 {
        String::from_str("8")
    } else {
        String::from_str("9")
    }
}

/// Render a nonnegative integer in decimal.
fn decimal_string(n: u64) -> (r: String)
    ensures
        r@ == spec_decimal(n as int),
    decreases n,
{
    if n < 10 {
        digit_string(n)
    } else {
        let mut s = decimal_string(n / 10);
        let d = digit_string(n % 10);
        s.append(d.as_str());
        proof {
            assert(s@ == spec_decimal(n as int / 10) + seq![spec_digit_char(n as int % 10)]);
            assert(spec_decimal(n as int / 10) + seq![spec_digit_char(n as int % 10)]
                =~= spec_decimal(n as int / 10).push(spec_digit_char(n as int % 10)));
        }
        s
    }
}

/// Round `num / den` to the nearest integer, ties to even.
fn round_half_even_u64(num: u64, den: u64) -> (r: u64)
    requires
        den > 0,
        den % 2 == 0,
        num / den < u64::MAX,
    ensures
        r as int == spec_round_half_even(num as int, den as int),
{
    let q = num / den;
    let rem = num % den;
    let half = den / 2;
    if rem > half {
        q + 1
    } else if rem < half {
        q
    } else if q % 2 == 0 {
        q
    } else {
        q + 1
    }
}

/// A size in bytes, readably: `N KB` under one mebibyte, `N.N MB` above,
/// rounding half to even in both.
pub fn human_size_from_bytes(size: usize) -> (r: String)
    ensures
        r@ == spec_human_size(size as int),
{
    proof {
        reveal_strlit(" KB");
        reveal_strlit(" MB");
        reveal_strlit(".");
    }
    if size < 0x100000 {
        let kb = round_half_even_u64(size as u64, 1024);
        let mut s = decimal_string(kb);
        s.append(" KB");
        s
    } else {
        let times_ten: u64 = (size as u64) / 0x100000 * 10 + ((size as u64) % 0x100000) * 10
            / 0x100000;
        let rem10: u64 = ((size as u64) % 0x100000) * 10 % 0x100000;
        proof {
            assert((size as u64) as int * 10 == (times_ten * 0x100000 + rem10)) by (nonlinear_arith)
                requires
                    times_ten == (size as u64) / 0x100000 * 10 + ((size as u64) % 0x100000) * 10
                        / 0x100000,
                    rem10 == ((size as u64) % 0x100000) * 10 % 0x100000,
            ;
        }
        let tenths = {
            let q = times_ten;
            let rem = rem10;
            let half: u64 = 0x80000;
            if rem > half {
                q + 1
            } else if rem < half {
                q
            } else if q % 2 == 0 {
                q
            } else {
                q + 1
            }
        };
        proof {
            assert(tenths as int == spec_round_half_even(size as int * 10, 0x100000)) by (
            nonlinear_arith)
                requires
                    size as u64 as int * 10 == times_ten * 0x100000 + rem10,
                    0 <= rem10 < 0x100000,
                    size as u64 == size,
                    tenths == (if rem10 > 0x80000 {
                        times_ten + 1
                    } else if rem10 < 0x80000 {
                        times_ten as int
                    } else if times_ten % 2 == 0 {
                        times_ten as int
                    } else {
                        times_ten + 1
                    }),
            ;
        }
        let whole = decimal_string(tenths / 10);
        let frac = decimal_string(tenths % 10);
        let mut s = whole;
        s.append(".");
        s.append(frac.as_str());
        s.append(" MB");
        s
    }
}

} // verus!
