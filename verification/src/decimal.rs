//! Whole numbers written out in decimal digits.

use vstd::prelude::*;

verus! {

/// The character for one decimal digit.
pub open spec fn digit(d: nat) -> char {
    if d == 0 {
        '0'
    } else if d == 1 {
        '1'
    } else if d == 2 {
        '2'
    } else if d == 3 {
        '3'
    } else if d == 4 {
        '4'
    } else if d == 5 {
        '5'
    } else if d == 6 {
        '6'
    } else if d == 7 {
        '7'
    } else if d == 8 {
        '8'
    } else {
        '9'
    }
}

/// The decimal digits of `n`, the most significant first, without leading
/// zeros; zero is written `0`.
pub open spec fn decimal(n: nat) -> Seq<char>
    decreases n,
{
    if n < 10 {
        seq![digit(n)]
    } else {
        decimal(n / 10).push(digit(n % 10))
    }
}

/// The digits of `n` above its last `ds.len()` ones, followed by the digits
/// that `ds` holds, the last of `ds` first.
spec fn rest_then_reversed(rest: nat, ds: Seq<u8>) -> Seq<char> {
    let high = if rest == 0 {
        Seq::<char>::empty()
    } else {
        decimal(rest)
    };
    high + Seq::new(ds.len(), |i: int| digit(ds[ds.len() - 1 - i] as nat))
}

/// One decimal digit as text.
fn digit_str(d: u8) -> (s: &'static str)
    requires
        d < 10,
    ensures
        s@ == seq![digit(d as nat)],
{
    proof {
        reveal_strlit("0");
        reveal_strlit("1");
        reveal_strlit("2");
        reveal_strlit("3");
        reveal_strlit("4");
        reveal_strlit("5");
        reveal_strlit("6");
        reveal_strlit("7");
        reveal_strlit("8");
        reveal_strlit("9");
    }
    let s = if d == 0 {
        "0"
    } else if d == 1 {
        "1"
    } else if d == 2 {
        "2"
    } else if d == 3 {
        "3"
    } else if d == 4 {
        "4"
    } else if d == 5 {
        "5"
    } else if d == 6 {
        "6"
    } else if d == 7 {
        "7"
    } else if d == 8 {
        "8"
    } else {
        "9"
    };
    assert(s@ =~= seq![digit(d as nat)]);
    s
}

/// Writes `n` in decimal digits: the digits are found from the last to the
/// first, then written from the first to the last.
pub fn to_decimal(n: u128) -> (text: String)
    ensures
        text@ == decimal(n as nat),
{
    let mut ds: Vec<u8> = Vec::new();
    ds.push((n % 10) as u8);
    let mut rest: u128 = n / 10;
    assert(decimal(n as nat) =~= rest_then_reversed(rest as nat, ds@));
    while rest > 0
        invariant
            ds.len() > 0,
            forall|i: int| 0 <= i < ds.len() ==> ds[i] < 10,
            decimal(n as nat) == rest_then_reversed(rest as nat, ds@),
        decreases rest,
    {
        let ghost before = ds@;
        ds.push((rest % 10) as u8);
        assert(rest_then_reversed(rest as nat, before) =~= rest_then_reversed(
            (rest / 10) as nat,
            ds@,
        ));
        rest = rest / 10;
    }
    let mut text = String::new();
    let mut i: usize = ds.len();
    while i > 0
        invariant
            i <= ds.len(),
            forall|k: int| 0 <= k < ds.len() ==> ds[k] < 10,
            text@ == rest_then_reversed(0, ds@).take(ds.len() - i),
        decreases i,
    {
        i -= 1;
        text.append(digit_str(ds[i]));
        assert(text@ =~= rest_then_reversed(0, ds@).take(ds.len() - i));
    }
    assert(text@ =~= rest_then_reversed(0, ds@));
    text
}

} // verus!
