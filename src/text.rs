//! Decimal text of integers: rendering and parsing.
use vstd::prelude::*;
use vstd::string::*;

verus! {

/// The character of a decimal digit.
pub open spec fn digit_char(d: int) -> char {
    if d == 0 {
        '0'
    } else if d == 1 {
        '1'
    } else if d == 2 {
        '2'
    } else if d == 3 {
        '3'
    } else if d == 4 {
        '4'
    } else if d == 5 {
        '5'
    } else if d == 6 {
        '6'
    } else if d == 7 {
        '7'
    } else if d == 8 {
        '8'
    } else {
        '9'
    }
}

/// Decimal digits of a natural number, most significant first, no leading zero.
pub open spec fn dec_nat(n: nat) -> Seq<char>
    decreases n,
{
    if n < 10 {
        seq![digit_char(n as int)]
    } else {
        dec_nat(n / 10) + seq![digit_char((n % 10) as int)]
    }
}

/// Decimal text of an integer, with a leading `-` when it is negative.
pub open spec fn dec_int(n: int) -> Seq<char> {
    if n < 0 {
        seq!['-'] + dec_nat((-n) as nat)
    } else {
        dec_nat(n as nat)
    }
}

pub open spec fn is_digit(c: char) -> bool {
    48 <= (c as u32) <= 57
}

pub open spec fn digit_value(c: char) -> int {
    (c as u32) - 48
}

/// A non-empty run of decimal digits.
pub open spec fn all_digits(s: Seq<char>) -> bool {
    s.len() > 0 && forall|i: int| 0 <= i < s.len() ==> is_digit(#[trigger] s[i])
}

/// The number that a run of decimal digits denotes.
pub open spec fn digits_value(s: Seq<char>) -> int
    decreases s.len(),
{
    if s.len() == 0 {
        0
    } else {
        digits_value(s.drop_last()) * 10 + digit_value(s.last())
    }
}

/// The integer that decimal text denotes: an optional `+` or `-` sign,
/// then one or more digits.
pub open spec fn parse_int(s: Seq<char>) -> Option<int> {
    if s.len() > 0 && s[0] == '-' && all_digits(s.drop_first()) {
        Some(-digits_value(s.drop_first()))
    } else if s.len() > 0 && s[0] == '+' && all_digits(s.drop_first()) {
        Some(digits_value(s.drop_first()))
    } else if all_digits(s) {
        Some(digits_value(s))
    } else {
        None
    }
}

fn digit_str(d: u64) -> (r: &'static str)
    requires
        d < 10,
    ensures
        r@ == seq![digit_char(d as int)],
{
    proof {
        reveal_strlit("0");
        reveal_strlit("1");
        reveal_strlit("2");
        reveal_strlit("3");
        reveal_strlit("4");
        reveal_strlit("5");
        reveal_strlit("6");
        reveal_strlit("7");
        reveal_strlit("8");
        reveal_strlit("9");
    }
    if d == 0 {
        "0"
    } else if d == 1 {
        "1"
    } else if d == 2 {
        "2"
    } else if d == 3 {
        "3"
    } else if d == 4 {
        "4"
    } else if d == 5 {
        "5"
    } else if d == 6 {
        "6"
    } else if d == 7 {
        "7"
    } else if d == 8 {
        "8"
    } else {
        "9"
    }
}

/// Appends the decimal digits of `n`.
pub fn write_nat(n: u64, out: &mut String)
    ensures
        final(out)@ == old(out)@ + dec_nat(n as nat),
    decreases n,
{
    if n >= 10 {
        write_nat(n / 10, out);
    }
    out.append(digit_str(n % 10));
    proof {
        assert(final(out)@ =~= old(out)@ + dec_nat(n as nat));
    }
}

/// Appends the decimal text of `n`.
pub fn write_int(n: i128, out: &mut String)
    requires
        -0x1_0000_0000_0000_0000 < n < 0x1_0000_0000_0000_0000,
    ensures
        final(out)@ == old(out)@ + dec_int(n as int),
{
    if n < 0 {
        proof {
            reveal_strlit("-");
        }
        out.append("-");
        write_nat((-n) as u64, out);
        proof {
            assert(final(out)@ =~= old(out)@ + dec_int(n as int));
        }
    } else {
        write_nat(n as u64, out);
    }
}

proof fn lemma_digits_value_grows(s: Seq<char>, c: char)
    requires
        all_digits(s.push(c)),
    ensures
        digits_value(s.push(c)) == digits_value(s) * 10 + digit_value(c),
        digits_value(s.push(c)) >= digits_value(s),
        digits_value(s) >= 0,
    decreases s.len(),
{
    assert(s.push(c).drop_last() =~= s);
    if s.len() > 0 {
        assert(s.drop_last().push(s.last()) =~= s);
        assert(all_digits(s));
        lemma_digits_value_grows(s.drop_last(), s.last());
    }
    assert(digit_value(c) >= 0) by {
        assert(s.push(c)[s.len() as int] == c);
    }
}

/// Parses decimal text into an integer within `[lo, hi]`: `None` when the
/// text is no integer, or one outside that range.
pub fn parse_int_in(s: &str, lo: i128, hi: i128) -> (r: Option<i128>)
    requires
        -0x1_0000_0000_0000_0000 < lo <= hi < 0x1_0000_0000_0000_0000,
    ensures
        r is Some <==> (parse_int(s@) is Some && lo <= parse_int(s@)->0 <= hi),
        r matches Some(v) ==> v as int == parse_int(s@)->0,
{
    let cap: u128 = 0x2_0000_0000_0000_0000;
    let len = s.unicode_len();
    if len == 0 {
        return None;
    }
    let first = s.get_char(0);
    let negative = first == '-';
    let start: usize = if first == '-' || first == '+' { 1 } else { 0 };
    if start == len {
        proof {
            assert(!all_digits(s@.drop_first()));
            assert(!is_digit(s@[0]));
        }
        return None;
    }
    let mut acc: u128 = 0;
    let mut i: usize = start;
    proof {
        assert(s@.subrange(start as int, start as int) =~= Seq::<char>::empty());
    }
    while i < len
        invariant
            len == s@.len(),
            start <= i <= len,
            start < len,
            start == 1 <==> (s@[0] == '-' || s@[0] == '+'),
            start == 0 || start == 1,
            negative == (s@[0] == '-'),
            forall|j: int| start <= j < i ==> is_digit(#[trigger] s@[j]),
            digits_value(s@.subrange(start as int, i as int)) >= cap ==> acc == cap,
            digits_value(s@.subrange(start as int, i as int)) < cap ==> acc
                == digits_value(s@.subrange(start as int, i as int)),
            acc <= cap,
            cap == 0x2_0000_0000_0000_0000,
            lo <= hi,
        decreases len - i,
    {
        let c = s.get_char(i);
        if !(48 <= (c as u32) && (c as u32) <= 57) {
            proof {
                let rest = s@.subrange(start as int, len as int);
                assert(rest[i - start] == c);
                assert(!all_digits(rest));
                assert(s@.drop_first() =~= s@.subrange(1, len as int));
                if start == 0 {
                    assert(!all_digits(s@.drop_first()) || (s@[0] != '-' && s@[0] != '+'));
                    assert(!all_digits(s@));
                } else {
                    assert(!all_digits(s@));
                }
            }
            return None;
        }
        let d: u128 = ((c as u32) - 48) as u128;
        proof {
            let pre = s@.subrange(start as int, i as int);
            assert(s@.subrange(start as int, i + 1) =~= pre.push(c));
            assert(all_digits(pre.push(c)));
            lemma_digits_value_grows(pre, c);
        }
        if acc < cap {
            assert(acc * 10 < 0x100_0000_0000_0000_0000) by (nonlinear_arith)
                requires
                    acc < 0x2_0000_0000_0000_0000,
            ;
            assert(d < 10);
            let next = acc * 10 + d;
            acc = if next < cap { next } else { cap };
        }
        i = i + 1;
    }
    let ghost rest = s@.subrange(start as int, len as int);
    proof {
        assert(all_digits(rest));
        assert(s@.drop_first() =~= s@.subrange(1, len as int));
        if start == 0 {
            assert(rest =~= s@);
            assert(is_digit(s@[0]));
        }
        assert(digits_value(rest) >= 0) by {
            assert(rest.drop_last().push(rest.last()) =~= rest);
            lemma_digits_value_grows(rest.drop_last(), rest.last());
        }
    }
    if acc == cap {
        return None;
    }
    let v: i128 = if negative { -(acc as i128) } else { acc as i128 };
    if lo <= v && v <= hi {
        Some(v)
    } else {
        None
    }
}

} // verus!
