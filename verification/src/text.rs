//! Plain-text rendering of numbers: decimal, lower-case hexadecimal and
//! one-decimal fixed point.

use vstd::prelude::*;

verus! {

/// The character of a digit in base 16 (lower case), for `d < 16`.
pub open spec fn digit_char(d: nat) -> char {
    if d == 0 { '0' } else if d == 1 { '1' } else if d == 2 { '2' } else if d == 3 { '3' }
    else if d == 4 { '4' } else if d == 5 { '5' } else if d == 6 { '6' } else if d == 7 { '7' }
    else if d == 8 { '8' } else if d == 9 { '9' } else if d == 10 { 'a' } else if d == 11 { 'b' }
    else if d == 12 { 'c' } else if d == 13 { 'd' } else if d == 14 { 'e' } else { 'f' }
}

/// The decimal representation of `n`, without leading zeros ("0" for zero).
pub open spec fn decimal(n: nat) -> Seq<char>
    decreases n,
{
    if n < 10 {
        seq![digit_char(n)]
    } else {
        decimal(n / 10).push(digit_char(n % 10))
    }
}

/// The lower-case hexadecimal representation of `n`, without leading zeros.
pub open spec fn hex(n: nat) -> Seq<char>
    decreases n,
{
    if n < 16 {
        seq![digit_char(n)]
    } else {
        hex(n / 16).push(digit_char(n % 16))
    }
}

/// The share `num / den` (a percentage, `den > 0`) in tenths, rounded to
/// the nearest tenth from the exact ratio; only an exact tie goes to the
/// even tenth.
pub open spec fn share_tenths(num: nat, den: nat) -> nat {
    let q = num * 10 / den;
    let r = num * 10 % den;
    if 2 * r > den || (2 * r == den && q % 2 == 1) { q + 1 } else { q }
}

/// The share `num / den` written with exactly one decimal, rounded as
/// `share_tenths` says: 80257/1000 is "80.3", 80250/1000 is "80.2",
/// 80350/1000 is "80.4", 5/100 is "0.0".
pub open spec fn share_text(num: nat, den: nat) -> Seq<char> {
    let t = share_tenths(num, den);
    decimal(t / 10) + seq!['.'] + seq![digit_char(t % 10)]
}

/// The value of a digit character: '0'..'9' are 0..9 and 'a'..'f' are
/// 10..15 (other characters count as 16, no digit).
pub open spec fn char_value(c: char) -> nat {
    if '0' <= c && c <= '9' {
        (c as nat - '0' as nat) as nat
    } else if 'a' <= c && c <= 'f' {
        (c as nat - 'a' as nat + 10) as nat
    } else {
        16
    }
}

/// The number that the digits `s` stand for in base `base`, most
/// significant first.
pub open spec fn digits_value(s: Seq<char>, base: nat) -> nat
    decreases s.len(),
{
    if s.len() == 0 {
        0
    } else {
        digits_value(s.drop_last(), base) * base + char_value(s.last())
    }
}

proof fn lemma_digit_char_value(d: nat)
    requires
        d < 16,
    ensures
        char_value(digit_char(d)) == d,
{
}

/// Decimal text reads back as the number it was made from, and uses only
/// the digits '0'..'9', with no leading zero.
pub proof fn lemma_decimal_reads_back(n: nat)
    ensures
        digits_value(decimal(n), 10) == n,
        forall|i: int| 0 <= i < decimal(n).len() ==> char_value(#[trigger] decimal(n)[i]) < 10,
        decimal(n).len() >= 1,
        n >= 10 ==> decimal(n).len() > 1,
        decimal(n).len() > 1 ==> decimal(n)[0] != '0',
    decreases n,
{
    let s = decimal(n);
    if n < 10 {
        lemma_digit_char_value(n);
        assert(s.drop_last() =~= Seq::<char>::empty());
        assert(digits_value(s, 10) == digits_value(s.drop_last(), 10) * 10 + char_value(s.last()));
    } else {
        let m = n / 10;
        lemma_decimal_reads_back(m);
        lemma_digit_char_value(n % 10);
        assert(s.drop_last() =~= decimal(m));
        assert(s.last() == digit_char(n % 10));
        assert(digits_value(s, 10) == digits_value(decimal(m), 10) * 10 + char_value(s.last()));
        assert(m * 10 + n % 10 == n);
        assert forall|i: int| 0 <= i < s.len() implies char_value(#[trigger] s[i]) < 10 by {
            if i < s.len() - 1 {
                assert(s[i] == decimal(m)[i]);
            }
        }
        assert(s.len() == decimal(m).len() + 1);
        assert(s[0] == decimal(m)[0]);
        if m < 10 {
            lemma_digit_char_value(m);
            assert(decimal(m)[0] == digit_char(m));
            assert(char_value('0') == 0);
        }
    }
}

/// Hexadecimal text reads back as the number it was made from, and uses
/// only the digits '0'..'9' and 'a'..'f', with no leading zero.
pub proof fn lemma_hex_reads_back(n: nat)
    ensures
        digits_value(hex(n), 16) == n,
        forall|i: int| 0 <= i < hex(n).len() ==> char_value(#[trigger] hex(n)[i]) < 16,
        hex(n).len() >= 1,
        n >= 16 ==> hex(n).len() > 1,
        hex(n).len() > 1 ==> hex(n)[0] != '0',
    decreases n,
{
    let s = hex(n);
    if n < 16 {
        lemma_digit_char_value(n);
        assert(s.drop_last() =~= Seq::<char>::empty());
        assert(digits_value(s, 16) == digits_value(s.drop_last(), 16) * 16 + char_value(s.last()));
    } else {
        let m = n / 16;
        lemma_hex_reads_back(m);
        lemma_digit_char_value(n % 16);
        assert(s.drop_last() =~= hex(m));
        assert(s.last() == digit_char(n % 16));
        assert(digits_value(s, 16) == digits_value(hex(m), 16) * 16 + char_value(s.last()));
        assert(m * 16 + n % 16 == n);
        assert forall|i: int| 0 <= i < s.len() implies char_value(#[trigger] s[i]) < 16 by {
            if i < s.len() - 1 {
                assert(s[i] == hex(m)[i]);
            }
        }
        assert(s.len() == hex(m).len() + 1);
        assert(s[0] == hex(m)[0]);
        if m < 16 {
            lemma_digit_char_value(m);
            assert(hex(m)[0] == digit_char(m));
            assert(char_value('0') == 0);
        }
    }
}

/// A share's text is the nearest tenth of the exact share: `t` tenths
/// differ from the share `num / den` (in tenths, `num * 10 / den`) by at most
/// half a tenth, and where they differ by exactly half, `t` is even.
pub proof fn lemma_share_tenths_nearest(num: nat, den: nat)
    requires
        den > 0,
    ensures
        2 * share_tenths(num, den) * den <= 2 * num * 10 + den,
        2 * num * 10 <= 2 * share_tenths(num, den) * den + den,
        (2 * share_tenths(num, den) * den == 2 * num * 10 + den || 2 * num * 10
            == 2 * share_tenths(num, den) * den + den) ==> share_tenths(num, den) % 2 == 0,
{
    let a = num * 10;
    vstd::arithmetic::div_mod::lemma_fundamental_div_mod(a as int, den as int);
    let q = a / den;
    let r = a % den;
    let t = share_tenths(num, den);
    assert(a == den * q + r);
    assert(0 <= r < den);
    if 2 * r > den || (2 * r == den && q % 2 == 1) {
        assert(t == q + 1);
        assert(2 * t * den <= 2 * a + den && 2 * a <= 2 * t * den + den
            && ((2 * t * den == 2 * a + den || 2 * a == 2 * t * den + den) ==> t % 2 == 0))
            by (nonlinear_arith)
            requires
                a == den * q + r,
                0 <= r < den,
                t == q + 1,
                2 * r > den || (2 * r == den && q % 2 == 1),
        ;
    } else {
        assert(t == q);
        assert(2 * t * den <= 2 * a + den && 2 * a <= 2 * t * den + den
            && ((2 * t * den == 2 * a + den || 2 * a == 2 * t * den + den) ==> t % 2 == 0))
            by (nonlinear_arith)
            requires
                a == den * q + r,
                0 <= r < den,
                t == q,
                !(2 * r > den || (2 * r == den && q % 2 == 1)),
        ;
    }
}

/// The one-character string of the digit `d` (base 16, lower case).
fn digit_str(d: u64) -> (s: &'static str)
    requires
        d < 16,
    ensures
        s@ == seq![digit_char(d as nat)],
{
    if d == 0 {
        proof { reveal_strlit("0"); }
        "0"
    } else if d == 1 {
        proof { reveal_strlit("1"); }
        "1"
    } else if d == 2 {
        proof { reveal_strlit("2"); }
        "2"
    } else if d == 3 {
        proof { reveal_strlit("3"); }
        "3"
    } else if d == 4 {
        proof { reveal_strlit("4"); }
        "4"
    } else if d == 5 {
        proof { reveal_strlit("5"); }
        "5"
    } else if d == 6 {
        proof { reveal_strlit("6"); }
        "6"
    } else if d == 7 {
        proof { reveal_strlit("7"); }
        "7"
    } else if d == 8 {
        proof { reveal_strlit("8"); }
        "8"
    } else if d == 9 {
        proof { reveal_strlit("9"); }
        "9"
    } else if d == 10 {
        proof { reveal_strlit("a"); }
        "a"
    } else if d == 11 {
        proof { reveal_strlit("b"); }
        "b"
    } else if d == 12 {
        proof { reveal_strlit("c"); }
        "c"
    } else if d == 13 {
        proof { reveal_strlit("d"); }
        "d"
    } else if d == 14 {
        proof { reveal_strlit("e"); }
        "e"
    } else {
        proof { reveal_strlit("f"); }
        "f"
    }
}

/// Appends the decimal representation of `n` to `out`.
pub fn push_decimal(out: &mut String, n: u128)
    ensures
        final(out)@ == old(out)@ + decimal(n as nat),
    decreases n,
{
    if n >= 10 {
        push_decimal(out, n / 10);
    }
    out.append(digit_str((n % 10) as u64));
    proof {
        assert(decimal(n as nat) =~= if n < 10 { seq![digit_char(n as nat)] } else {
            decimal((n / 10) as nat).push(digit_char((n % 10) as nat))
        });
    }
}

/// Appends the lower-case hexadecimal representation of `n` to `out`.
pub fn push_hex(out: &mut String, n: u64)
    ensures
        final(out)@ == old(out)@ + hex(n as nat),
    decreases n,
{
    if n >= 16 {
        push_hex(out, n / 16);
    }
    out.append(digit_str(n % 16));
    proof {
        assert(hex(n as nat) =~= if n < 16 { seq![digit_char(n as nat)] } else {
            hex((n / 16) as nat).push(digit_char((n % 16) as nat))
        });
    }
}

/// Appends the share `num / den` written with one decimal (see `share_text`).
pub fn push_share(out: &mut String, num: u128, den: u128)
    requires
        0 < den <= u64::MAX,
        num <= u64::MAX as u128 * 10000,
    ensures
        final(out)@ == old(out)@ + share_text(num as nat, den as nat),
{
    let scaled: u128 = num * 10;
    let q: u128 = scaled / den;
    let r: u128 = scaled % den;
    let t: u128 = if 2 * r > den || (2 * r == den && q % 2 == 1) { q + 1 } else { q };
    assert(t == share_tenths(num as nat, den as nat));
    push_decimal(out, t / 10);
    proof { reveal_strlit("."); }
    out.append(".");
    out.append(digit_str((t % 10) as u64));
    assert(final(out)@ =~= old(out)@ + share_text(num as nat, den as nat)) by {
        assert(out@ =~= old(out)@ + decimal((t / 10) as nat) + seq!['.'] + seq![digit_char((t % 10) as nat)]);
    }
}

} // verus!
