//! Decimal renderings of problem ids: turning a `u64` into its digit
//! string and reading such a string back.

use vstd::prelude::*;

verus! {

/// The character for a single decimal digit value.
pub open spec fn digit_char(d: nat) -> char {
    if d == 0 {
        '0'
    } else if d == 1 {
        '1'
    } else if d == 2 {
        '2'
    } else if d == 3 {
        '3'
    } else if d == 4 {
        '4'
    } else if d == 5 {
        '5'
    } else if d == 6 {
        '6'
    } else if d == 7 {
        '7'
    } else if d == 8 {
        '8'
    } else {
        '9'
    }
}

/// The numeric value of a decimal digit character; 10 marks a non-digit.
pub open spec fn digit_val(c: char) -> nat {
    if c == '0' {
        0
    } else if c == '1' {
        1
    } else if c == '2' {
        2
    } else if c == '3' {
        3
    } else if c == '4' {
        4
    } else if c == '5' {
        5
    } else if c == '6' {
        6
    } else if c == '7' {
        7
    } else if c == '8' {
        8
    } else if c == '9' {
        9
    } else {
        10
    }
}

pub open spec fn is_dec_digit(c: char) -> bool {
    digit_val(c) < 10
}

/// The decimal representation of `n`: most significant digit first,
/// no sign, no padding.
pub open spec fn dec_seq(n: nat) -> Seq<char>
    decreases n,
{
    if n < 10 {
        seq![digit_char(n)]
    } else {
        dec_seq(n / 10).push(digit_char(n % 10))
    }
}

/// The number denoted by a sequence of decimal digit characters.
pub open spec fn dec_val(s: Seq<char>) -> nat
    decreases s.len(),
{
    if s.len() == 0 {
        0
    } else {
        dec_val(s.drop_last()) * 10 + digit_val(s.last())
    }
}

pub open spec fn all_dec_digits(s: Seq<char>) -> bool {
    forall|i: int| 0 <= i < s.len() ==> is_dec_digit(#[trigger] s[i])
}

/// A string the library accepts as a problem id: one or more decimal
/// digits whose value fits in a `u64`.
pub open spec fn is_u64_decimal(s: Seq<char>) -> bool {
    &&& s.len() > 0
    &&& all_dec_digits(s)
    &&& dec_val(s) <= u64::MAX
}

/// The decimal rendering of a number consists of digits only.
pub proof fn lemma_dec_seq_digits(n: nat)
    ensures
        dec_seq(n).len() > 0,
        all_dec_digits(dec_seq(n)),
    decreases n,
{
    if n >= 10 {
        lemma_dec_seq_digits(n / 10);
    }
}

/// Reading a decimal rendering back yields the number it came from.
pub proof fn lemma_dec_seq_val(n: nat)
    ensures
        dec_val(dec_seq(n)) == n,
    decreases n,
{
    if n < 10 {
        let s = dec_seq(n);
        assert(s.last() == digit_char(n));
        assert(s.drop_last() =~= Seq::<char>::empty());
        assert(dec_val(s) == dec_val(s.drop_last()) * 10 + digit_val(digit_char(n)));
        assert(digit_val(digit_char(n)) == n);
    } else {
        lemma_dec_seq_val(n / 10);
        let s = dec_seq(n);
        assert(s.last() == digit_char(n % 10));
        assert(s.drop_last() =~= dec_seq(n / 10));
        assert(dec_val(s) == dec_val(dec_seq(n / 10)) * 10 + digit_val(digit_char(n % 10)));
        assert(digit_val(digit_char(n % 10)) == n % 10);
        assert(n / 10 * 10 + n % 10 == n) by (nonlinear_arith);
    }
}

/// The decimal rendering of a `u64` is itself accepted as a problem id.
pub proof fn lemma_dec_seq_is_u64_decimal(n: u64)
    ensures
        is_u64_decimal(dec_seq(n as nat)),
{
    lemma_dec_seq_digits(n as nat);
    lemma_dec_seq_val(n as nat);
}

fn append_digit(out: &mut String, d: u64)
    requires
        d < 10,
    ensures
        final(out)@ == old(out)@ + seq![digit_char(d as nat)],
{
    proof {
        reveal_strlit("0");
        reveal_strlit("1");
        reveal_strlit("2");
        reveal_strlit("3");
        reveal_strlit("4");
        reveal_strlit("5");
        reveal_strlit("6");
        reveal_strlit("7");
        reveal_strlit("8");
        reveal_strlit("9");
    }
    let s: &str = if d == 0 {
        "0"
    } else if d == 1 {
        "1"
    } else if d == 2 {
        "2"
    } else if d == 3 {
        "3"
    } else if d == 4 {
        "4"
    } else if d == 5 {
        "5"
    } else if d == 6 {
        "6"
    } else if d == 7 {
        "7"
    } else if d == 8 {
        "8"
    } else {
        "9"
    };
    assert(s@ =~= seq![digit_char(d as nat)]);
    out.append(s);
}

/// Appends the decimal rendering of `n` to `out`.
pub fn push_decimal(out: &mut String, n: u64)
    ensures
        final(out)@ == old(out)@ + dec_seq(n as nat),
    decreases n,
{
    if n < 10 {
        append_digit(out, n);
    } else {
        push_decimal(out, n / 10);
        append_digit(out, n % 10);
        assert(old(out)@ + dec_seq((n / 10) as nat) + seq![digit_char((n % 10) as nat)] =~= old(
            out,
        )@ + dec_seq(n as nat));
    }
}

/// The decimal rendering of `n` as an owned string.
pub fn u64_to_decimal(n: u64) -> (r: String)
    ensures
        r@ == dec_seq(n as nat),
{
    let mut out = String::new();
    push_decimal(&mut out, n);
    assert(Seq::<char>::empty() + dec_seq(n as nat) =~= dec_seq(n as nat));
    out
}

fn digit_of_char(c: char) -> (r: Option<u64>)
    ensures
        is_dec_digit(c) ==> r == Some(digit_val(c) as u64),
        !is_dec_digit(c) ==> r is None,
{
    match c {
        '0' => Some(0),
        '1' => Some(1),
        '2' => Some(2),
        '3' => Some(3),
        '4' => Some(4),
        '5' => Some(5),
        '6' => Some(6),
        '7' => Some(7),
        '8' => Some(8),
        '9' => Some(9),
        _ => None,
    }
}

/// A prefix of a digit string never denotes more than the whole.
proof fn lemma_dec_val_prefix(s: Seq<char>, j: int)
    requires
        0 <= j <= s.len(),
    ensures
        dec_val(s.subrange(0, j)) <= dec_val(s),
    decreases s.len() - j,
{
    if j == s.len() {
        assert(s.subrange(0, j) =~= s);
    } else {
        lemma_dec_val_prefix(s, j + 1);
        assert(s.subrange(0, j + 1).drop_last() =~= s.subrange(0, j));
        assert(dec_val(s.subrange(0, j)) <= dec_val(s.subrange(0, j + 1)));
    }
}

/// Reads a decimal problem id. Returns the value exactly when the whole
/// string is made of digits and the value fits in a `u64`.
pub fn parse_u64_decimal(s: &str) -> (r: Option<u64>)
    ensures
        is_u64_decimal(s@) ==> r == Some(dec_val(s@) as u64),
        !is_u64_decimal(s@) ==> r is None,
{
    let len = s.unicode_len();
    if len == 0 {
        return None;
    }
    let mut acc: u64 = 0;
    let mut i: usize = 0;
    while i < len
        invariant
            0 < len == s@.len(),
            0 <= i <= len,
            all_dec_digits(s@.subrange(0, i as int)),
            acc as nat == dec_val(s@.subrange(0, i as int)),
        decreases len - i,
    {
        let c = s.get_char(i);
        match digit_of_char(c) {
            None => {
                assert(!is_dec_digit(s@[i as int]));
                return None;
            },
            Some(d) => {
                proof {
                    assert(s@.subrange(0, i + 1).drop_last() =~= s@.subrange(0, i as int));
                }
                if acc > u64::MAX / 10 || (acc == u64::MAX / 10 && d > u64::MAX % 10) {
                    proof {
                        lemma_dec_val_prefix(s@, i + 1);
                        assert(dec_val(s@.subrange(0, i + 1)) == acc as nat * 10 + d);
                        assert(acc as nat * 10 + d > u64::MAX) by (nonlinear_arith)
                            requires
                                acc > u64::MAX / 10 || (acc == u64::MAX / 10 && d > u64::MAX % 10),
                                d < 10,
                        ;
                    }
                    return None;
                }
                assert(acc as nat * 10 + d <= u64::MAX) by (nonlinear_arith)
                    requires
                        acc <= u64::MAX / 10,
                        acc == u64::MAX / 10 ==> d <= u64::MAX % 10,
                        d < 10,
                ;
                acc = acc * 10 + d;
                i = i + 1;
            },
        }
    }
    assert(s@.subrange(0, len as int) =~= s@);
    Some(acc)
}

} // verus!
