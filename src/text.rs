use vstd::prelude::*;

verus! {

/// The character of the decimal digit `d`.
pub open spec fn digit_char(d: int) -> char {
    if d == 0 {
        '0'
    } else if d == 1 {
        '1'
    } else if d == 2 {
        '2'
    } else if d == 3 {
        '3'
    } else if d == 4 {
        '4'
    } else if d == 5 {
        '5'
    } else if d == 6 {
        '6'
    } else if d == 7 {
        '7'
    } else if d == 8 {
        '8'
    } else {
        '9'
    }
}

/// The decimal digits of `n`, without leading zeros ("0" for zero).
pub open spec fn digits(n: nat) -> Seq<char>
    decreases n,
{
    if n < 10 {
        seq![digit_char(n as int)]
    } else {
        digits(n / 10) + seq![digit_char((n % 10) as int)]
    }
}

/// The last `width` decimal digits of `n`, with leading zeros.
pub open spec fn padded_digits(n: nat, width: nat) -> Seq<char>
    decreases width,
{
    if width == 0 {
        seq![]
    } else {
        padded_digits(n / 10, (width - 1) as nat) + seq![digit_char((n % 10) as int)]
    }
}

/// `f`, a fraction of `width` digits, without its trailing zero digits.
pub open spec fn trim_zeros(f: nat, width: nat) -> (nat, nat)
    decreases width,
{
    if width > 0 && f % 10 == 0 {
        trim_zeros(f / 10, (width - 1) as nat)
    } else {
        (f, width)
    }
}

/// `v` millionths written as a decimal number: the whole part, then, when
/// there is a fraction, a point and the fraction without trailing zeros.
pub open spec fn millionths_text(v: nat) -> Seq<char> {
    let whole = v / 1_000_000;
    let frac = v % 1_000_000;
    if frac == 0 {
        digits(whole)
    } else {
        let (f, w) = trim_zeros(frac, 6);
        digits(whole) + seq!['.'] + padded_digits(f, w)
    }
}

/// The text of one decimal digit.
fn digit_str(d: u64) -> (s: &'static str)
    requires
        d < 10,
    ensures
        s@ == seq![digit_char(d as int)],
{
    proof {
        reveal_strlit("0");
        reveal_strlit("1");
        reveal_strlit("2");
        reveal_strlit("3");
        reveal_strlit("4");
        reveal_strlit("5");
        reveal_strlit("6");
        reveal_strlit("7");
        reveal_strlit("8");
        reveal_strlit("9");
    }
    if d == 0 {
        "0"
    } else if d == 1 {
        "1"
    } else if d == 2 {
        "2"
    } else if d == 3 {
        "3"
    } else if d == 4 {
        "4"
    } else if d == 5 {
        "5"
    } else if d == 6 {
        "6"
    } else if d == 7 {
        "7"
    } else if d == 8 {
        "8"
    } else {
        "9"
    }
}

/// Appends the decimal digits of `n`.
fn push_digits(out: &mut String, n: u64)
    ensures
        final(out)@ == old(out)@ + digits(n as nat),
    decreases n,
{
    if n >= 10 {
        push_digits(out, n / 10);
    }
    out.append(digit_str(n % 10));
    assert(out@ =~= old(out)@ + digits(n as nat));
}

/// Appends the last `width` decimal digits of `n`, with leading zeros.
fn push_padded_digits(out: &mut String, n: u64, width: u64)
    ensures
        final(out)@ == old(out)@ + padded_digits(n as nat, width as nat),
    decreases width,
{
    if width > 0 {
        push_padded_digits(out, n / 10, width - 1);
        out.append(digit_str(n % 10));
        assert(out@ =~= old(out)@ + padded_digits(n as nat, width as nat));
    } else {
        assert(out@ =~= old(out)@ + padded_digits(n as nat, width as nat));
    }
}

/// Writes `v` millionths as a decimal number.
pub fn millionths(v: u64) -> (s: String)
    ensures
        s@ == millionths_text(v as nat),
{
    let mut s = String::new();
    push_digits(&mut s, v / 1_000_000);
    let mut f = v % 1_000_000;
    if f != 0 {
        let mut w: u64 = 6;
        while w > 0 && f % 10 == 0
            invariant
                w <= 6,
                trim_zeros(f as nat, w as nat) == trim_zeros((v % 1_000_000) as nat, 6),
            decreases w,
        {
            f = f / 10;
            w = w - 1;
        }
        proof {
            reveal_strlit(".");
        }
        s.append(".");
        push_padded_digits(&mut s, f, w);
        assert(s@ =~= millionths_text(v as nat));
    } else {
        assert(s@ =~= millionths_text(v as nat));
    }
    s
}

} // verus!
