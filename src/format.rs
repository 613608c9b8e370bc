use crate::text::string_of;
use vstd::arithmetic::div_mod::lemma_fundamental_div_mod;
use vstd::prelude::*;
use vstd::string::StringExecFns;

verus! {

pub const KB: u64 = 1024;

pub const MB: u64 = 1024 * 1024;

pub const GB: u64 = 1024 * 1024 * 1024;

/// The character of decimal digit `d`.
pub open spec fn digit_char(d: int) -> char {
    ((d + 48) as u8) as char
}

/// The decimal digits of `n`, without leading zeros.
pub open spec fn decimal(n: nat) -> Seq<char>
    decreases n,
{
    if n < 10 {
        seq![digit_char(n as int)]
    } else {
        decimal(n / 10).push(digit_char((n % 10) as int))
    }
}

/// `a / b` rounded to the nearest integer, ties to the even one.
pub open spec fn div_round_even(a: nat, b: nat) -> nat
    recommends
        b > 0,
{
    let q = a / b;
    let r = a % b;
    if 2 * r > b || (2 * r == b && q % 2 == 1) {
        q + 1
    } else {
        q
    }
}

/// `bytes / unit` with two decimals.
pub open spec fn hundredths_text(bytes: nat, unit: nat) -> Seq<char> {
    let h = div_round_even(bytes * 100, unit);
    let frac = h % 100;
    decimal(h / 100) + seq!['.'] + (if frac < 10 {
        seq!['0']
    } else {
        seq![]
    }) + decimal(frac)
}

/// A file size for people: bytes below a kilobyte, else kilobytes, megabytes
/// or gigabytes (of 1024) with two decimals.
pub open spec fn size_text(bytes: nat) -> Seq<char> {
    if bytes >= GB {
        hundredths_text(bytes, GB as nat) + " GB"@
    } else if bytes >= MB {
        hundredths_text(bytes, MB as nat) + " MB"@
    } else if bytes >= KB {
        hundredths_text(bytes, KB as nat) + " KB"@
    } else {
        decimal(bytes) + " B"@
    }
}

fn digit(d: u64) -> (c: char)
    requires
        d < 10,
    ensures
        c == digit_char(d as int),
{
    ((d as u8) + 48) as char
}

/// The decimal digits of `n`.
pub fn decimal_text(n: u64) -> (r: String)
    ensures
        r@ == decimal(n as nat),
{
    let mut v: Vec<char> = Vec::new();
    let mut m = n;
    while m >= 10
        invariant
            decimal(n as nat) == decimal(m as nat) + v@,
        decreases m,
    {
        let ghost before = v@;
        v.insert(0, digit(m % 10));
        assert(decimal(m as nat) == decimal((m / 10) as nat).push(digit_char((m % 10) as int)));
        assert(decimal(m as nat) + before =~= decimal((m / 10) as nat) + v@);
        m = m / 10;
    }
    let ghost before = v@;
    v.insert(0, digit(m));
    assert(decimal(m as nat) + before =~= v@);
    string_of(&v, 0, v.len())
}

/// Formats a file size for people.
pub fn format_size(bytes: u64) -> (r: String)
    ensures
        r@ == size_text(bytes as nat),
{
    let (unit, suffix) = if bytes >= GB {
        (GB, " GB")
    } else if bytes >= MB {
        (MB, " MB")
    } else if bytes >= KB {
        (KB, " KB")
    } else {
        let r = decimal_text(bytes).concat(" B");
        return r;
    };
    let a: u128 = (bytes as u128) * 100;
    let q: u128 = a / (unit as u128);
    let rem: u128 = a % (unit as u128);
    let h: u128 = if 2 * rem > unit as u128 || (2 * rem == unit as u128 && q % 2 == 1) {
        q + 1
    } else {
        q
    };
    assert(h == div_round_even(bytes as nat * 100, unit as nat));
    proof {
        lemma_fundamental_div_mod(a as int, unit as int);
        let qi = q as int;
        let ui = unit as int;
        let bi = bytes as int;
        assert(qi * ui <= bi * 100);
        assert(qi * 1024 <= qi * ui) by (nonlinear_arith)
            requires
                qi >= 0,
                ui >= 1024,
        ;
        assert(h <= 0xffff_ffff_ffff_ffff);
    }
    let whole = decimal_text((h / 100) as u64);
    let frac = (h % 100) as u64;
    proof {
        reveal_strlit(".");
        reveal_strlit("0");
    }
    let mut r = whole.concat(".");
    if frac < 10 {
        r = r.concat("0");
    }
    let digits = decimal_text(frac);
    r = r.concat(digits.as_str());
    r = r.concat(suffix);
    assert(r@ =~= size_text(bytes as nat));
    r
}

} // verus!
