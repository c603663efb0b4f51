use vstd::prelude::*;

use crate::words::string_of;

verus! {

/// The decimal digit for `d` below ten.
pub open spec fn digit(d: int) -> char {
    ((48 + d) as u8) as char
}

/// Decimal digits of `n`, without leading zeros.
pub open spec fn decimal(n: nat) -> Seq<char>
    decreases n,
{
    if n < 10 {
        seq![digit(n as int)]
    } else {
        decimal(n / 10).push(digit((n % 10) as int))
    }
}

/// Decimal digits of `n` with a comma before each group of three from the right.
pub open spec fn grouped(n: nat) -> Seq<char>
    decreases n,
{
    if n < 1000 {
        decimal(n)
    } else {
        let m = (n % 1000) as int;
        grouped(n / 1000) + seq![',', digit(m / 100), digit(m / 10 % 10), digit(m % 10)]
    }
}

fn digit_char(d: u128) -> (r: char)
    requires
        d < 10,
    ensures
        r == digit(d as int),
{
    ((48 + d) as u8) as char
}

fn decimal_chars(n: u128) -> (r: Vec<char>)
    ensures
        r@ == decimal(n as nat),
    decreases n,
{
    if n < 10 {
        let mut v: Vec<char> = Vec::new();
        v.push(digit_char(n));
        v
    } else {
        let mut v = decimal_chars(n / 10);
        v.push(digit_char(n % 10));
        v
    }
}

fn grouped_chars(n: u128) -> (r: Vec<char>)
    ensures
        r@ == grouped(n as nat),
    decreases n,
{
    if n < 1000 {
        decimal_chars(n)
    } else {
        let mut v = grouped_chars(n / 1000);
        let m = n % 1000;
        v.push(',');
        v.push(digit_char(m / 100));
        v.push(digit_char(m / 10 % 10));
        v.push(digit_char(m % 10));
        assert(v@ =~= grouped(n as nat));
        v
    }
}

/// `n` in decimal with commas between groups of three digits.
pub fn group_thousands(n: u128) -> (r: String)
    ensures
        r@ == grouped(n as nat),
{
    let v = grouped_chars(n);
    string_of(&v)
}

} // verus!
