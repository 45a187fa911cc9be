//! Decimal rendering of track indices, for the positional fallback names.

use vstd::prelude::*;

verus! {

/// The character for one decimal digit.
pub open spec fn digit_char(d: nat) -> char
    recommends
        d < 10,
{
    if d == 0 {
        '0'
    } else if d == 1 {
        '1'
    } else if d == 2 {
        '2'
    } else if d == 3 {
        '3'
    } else if d == 4 {
        '4'
    } else if d == 5 {
        '5'
    } else if d == 6 {
        '6'
    } else if d == 7 {
        '7'
    } else if d == 8 {
        '8'
    } else {
        '9'
    }
}

/// The usual decimal rendering of `n`, most significant digit first and
/// without leading zeros.
pub open spec fn dec_str(n: nat) -> Seq<char>
    decreases n,
{
    if n < 10 {
        seq![digit_char(n)]
    } else {
        dec_str(n / 10) + seq![digit_char(n % 10)]
    }
}

fn digit_to_char(d: usize) -> (c: char)
    requires
        d < 10,
    ensures
        c == digit_char(d as nat),
{
    match d {
        0 => '0',
        1 => '1',
        2 => '2',
        3 => '3',
        4 => '4',
        5 => '5',
        6 => '6',
        7 => '7',
        8 => '8',
        _ => '9',
    }
}

/// Renders `n` in decimal.
pub fn usize_to_string(n: usize) -> (s: String)
    ensures
        s@ == dec_str(n as nat),
    decreases n,
{
    let d = digit_to_char(n % 10);
    let mut s = if n < 10 {
        String::new()
    } else {
        usize_to_string(n / 10)
    };
    let ghost prefix = s@;
    let last = char_str(d);
    s.append(last);
    proof {
        assert(s@ == prefix + last@);
        assert(last@ =~= seq![d]);
        if n < 10 {
            assert(s@ =~= seq![digit_char(n as nat)]);
        } else {
            assert(s@ =~= dec_str((n / 10) as nat) + seq![digit_char((n % 10) as nat)]);
        }
    }
    s
}

/// The one-character string slice holding a decimal digit.
fn char_str(c: char) -> (s: &'static str)
    requires
        exists|d: nat| d < 10 && c == digit_char(d),
    ensures
        s@ =~= seq![c],
{
    let s = match c {
        '0' => "0",
        '1' => "1",
        '2' => "2",
        '3' => "3",
        '4' => "4",
        '5' => "5",
        '6' => "6",
        '7' => "7",
        '8' => "8",
        _ => "9",
    };
    proof {
        reveal_strlit("0");
        reveal_strlit("1");
        reveal_strlit("2");
        reveal_strlit("3");
        reveal_strlit("4");
        reveal_strlit("5");
        reveal_strlit("6");
        reveal_strlit("7");
        reveal_strlit("8");
        reveal_strlit("9");
        let d = choose|d: nat| d < 10 && c == digit_char(d);
        assert(s@ =~= seq![c]);
    }
    s
}

} // verus!
