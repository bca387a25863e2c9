//! Decimal numerals as bytes, written without any formatting machinery so
//! that a child between `clone` and `execve` can use them.
use vstd::prelude::*;
use vstd::string::StringExecFns;

verus! {

/// Room for the digits of a pid in an environment string.
pub const MAX_PID_LEN: usize = 12;

/// The ASCII digit for `d`, which is below ten.
pub open spec fn digit(d: nat) -> u8 {
    (48 + d) as u8
}

/// The decimal numeral of `n`, most significant digit first, without
/// leading zeros.
pub open spec fn decimal(n: nat) -> Seq<u8>
    decreases n,
{
    if n < 10 {
        seq![digit(n)]
    } else {
        decimal(n / 10).push(digit(n % 10))
    }
}

/// The value that a sequence of ASCII digits spells.
pub open spec fn decimal_value(s: Seq<u8>) -> nat
    decreases s.len(),
{
    if s.len() == 0 {
        0
    } else {
        (decimal_value(s.drop_last()) * 10 + (s.last() - 48)) as nat
    }
}

/// Whether every byte of `s` is an ASCII digit.
pub open spec fn all_digits(s: Seq<u8>) -> bool {
    forall|i: int| 0 <= i < s.len() ==> 48 <= #[trigger] s[i] <= 57
}

/// A numeral is made of digits, has at least one, and has no more than
/// twenty where the number fits in 64 bits.
pub proof fn lemma_decimal_digits(n: nat)
    ensures
        decimal(n).len() >= 1,
        all_digits(decimal(n)),
        n < 10 ==> decimal(n).len() == 1,
        n >= 10 ==> decimal(n).len() >= 2,
    decreases n,
{
    if n >= 10 {
        lemma_decimal_digits(n / 10);
        let s = decimal(n / 10);
        assert forall|i: int| 0 <= i < decimal(n).len() implies 48 <= #[trigger] decimal(n)[i]
            <= 57 by {
            if i < s.len() {
                assert(decimal(n)[i] == s[i]);
            }
        }
    }
}

/// A numeral is no longer than the bound on the number allows.
pub proof fn lemma_decimal_len(n: nat, k: nat, bound: nat)
    requires
        n < bound,
        bound == pow10(k),
        k >= 1,
    ensures
        decimal(n).len() <= k,
    decreases k,
{
    if n >= 10 {
        if k == 1 {
            assert(pow10(1) == 10 * pow10(0));
        } else {
            assert(pow10(k) == 10 * pow10((k - 1) as nat));
            lemma_decimal_len(n / 10, (k - 1) as nat, pow10((k - 1) as nat));
        }
    }
}

/// Ten to the power `k`.
pub open spec fn pow10(k: nat) -> nat
    decreases k,
{
    if k == 0 {
        1
    } else {
        10 * pow10((k - 1) as nat)
    }
}

/// The numeral of a 32-bit number has at most ten digits.
pub proof fn lemma_decimal_len_u32(n: nat)
    requires
        n <= u32::MAX,
    ensures
        1 <= decimal(n).len() <= 10,
{
    lemma_decimal_digits(n);
    assert(pow10(10) == 10_000_000_000) by {
        reveal_with_fuel(pow10, 11);
    }
    lemma_decimal_len(n, 10, 10_000_000_000);
}

/// Reading a numeral gives the number back: no two numbers share one.
pub proof fn lemma_decimal_value(n: nat)
    ensures
        decimal_value(decimal(n)) == n,
    decreases n,
{
    if n < 10 {
        let s = decimal(n);
        assert(s.drop_last() =~= Seq::<u8>::empty());
        assert(decimal_value(s.drop_last()) == 0);
    } else {
        lemma_decimal_value(n / 10);
        let s = decimal(n);
        assert(s.drop_last() =~= decimal(n / 10));
    }
}

/// Appends the decimal numeral of `n` to `out`.
pub fn push_decimal(out: &mut Vec<u8>, n: u64)
    ensures
        final(out)@ == old(out)@ + decimal(n as nat),
    decreases n,
{
    if n < 10 {
        out.push(48u8 + (n as u8));
        assert(final(out)@ =~= old(out)@ + decimal(n as nat));
    } else {
        push_decimal(out, n / 10);
        let d: u64 = n % 10;
        out.push(48u8 + (d as u8));
        assert(final(out)@ =~= old(out)@ + decimal(n as nat));
    }
}

/// The decimal numeral of `n`.
pub fn format_decimal(n: u64) -> (r: Vec<u8>)
    ensures
        r@ == decimal(n as nat),
{
    let mut out: Vec<u8> = Vec::new();
    push_decimal(&mut out, n);
    assert(out@ =~= decimal(n as nat));
    out
}

/// Writes the decimal numeral of `pid`, followed by a NUL, against the right
/// end of `buf` and returns the part of `buf` that holds them. Nothing is
/// allocated and nothing but division is used.
pub fn format_pid_fixed<'a>(buf: &'a mut [u8], pid: i32) -> (r: &'a [u8])
    requires
        pid >= 0,
        old(buf).len() >= decimal(pid as nat).len() + 1,
    ensures
        r@ == decimal(pid as nat).push(0u8),
        final(buf).len() == old(buf).len(),
        final(buf)@.subrange(old(buf).len() - r@.len(), old(buf).len() as int) == r@,
        final(buf)@.subrange(0, old(buf).len() - r@.len()) == old(buf)@.subrange(
            0,
            old(buf).len() - r@.len(),
        ),
{
    let len = buf.len();
    proof {
        lemma_decimal_digits(pid as nat);
    }
    buf[len - 1] = 0;
    let ghost target = decimal(pid as nat);
    let mut tmp: i32 = pid;
    let mut n: usize = len - 2;
    loop
        invariant_except_break
            0 <= n <= len - 2,
            0 <= tmp <= pid,
            buf.len() == len,
            len == old(buf).len(),
            len >= target.len() + 1,
            target == decimal(pid as nat),
            buf@[len - 1] == 0u8,
            target =~= decimal(tmp as nat) + buf@.subrange(n + 1, len - 1),
            forall|i: int| 0 <= i <= n ==> buf@[i] == old(buf)@[i],
        ensures
            0 <= n <= len - 2,
            buf.len() == len,
            len == old(buf).len(),
            buf@.subrange(n as int, len as int) =~= target.push(0u8),
            forall|i: int| 0 <= i < n ==> buf@[i] == old(buf)@[i],
        decreases n,
    {
        let ghost before = buf@;
        let d: i32 = tmp % 10;
        buf[n] = 48u8 + (d as u8);
        proof {
            lemma_decimal_digits(tmp as nat);
            assert(buf@.subrange(n + 1, len - 1) =~= before.subrange(n + 1, len - 1));
        }
        let ghost prev = tmp;
        tmp = tmp / 10;
        if tmp == 0 {
            proof {
                assert(decimal(prev as nat) =~= seq![digit(prev as nat)]);
                assert(buf@.subrange(n as int, len - 1) =~= seq![buf@[n as int]] + buf@.subrange(
                    n + 1,
                    len - 1,
                ));
                assert(buf@.subrange(n as int, len as int) =~= buf@.subrange(n as int, len - 1).push(
                    0u8,
                ));
            }
            break ;
        }
        proof {
            lemma_decimal_digits(tmp as nat);
            assert(decimal(prev as nat) =~= decimal(tmp as nat).push(digit((prev % 10) as nat)));
            assert(buf@.subrange(n as int, len - 1) =~= seq![buf@[n as int]] + buf@.subrange(
                n + 1,
                len - 1,
            ));
            assert(target.len() == decimal(prev as nat).len() + (len - 1 - (n + 1)));
            assert(n >= 1);
        }
        n = n - 1;
    }
    let r = vstd::slice::slice_subrange(buf, n, len);
    proof {
        assert(r@ =~= target.push(0u8));
        assert(buf@.subrange(0, len - r@.len()) =~= old(buf)@.subrange(0, len - r@.len()));
    }
    r
}

/// The character for the digit `d`, which is below ten.
pub open spec fn digit_char(d: nat) -> char {
    (48 + d) as char
}

/// The decimal numeral of `n` as text.
pub open spec fn decimal_text(n: nat) -> Seq<char>
    decreases n,
{
    if n < 10 {
        seq![digit_char(n)]
    } else {
        decimal_text(n / 10).push(digit_char(n % 10))
    }
}

/// The decimal numeral of `n` as text, with a minus sign before it if `n` is
/// negative.
pub open spec fn signed_decimal_text(n: int) -> Seq<char> {
    if n < 0 {
        seq!['-'] + decimal_text((-n) as nat)
    } else {
        decimal_text(n as nat)
    }
}

/// The text of the digit `d`.
fn digit_str(d: u64) -> (r: &'static str)
    requires
        d < 10,
    ensures
        r@ == seq![digit_char(d as nat)],
{
    proof {
        reveal_strlit("0");
        reveal_strlit("1");
        reveal_strlit("2");
        reveal_strlit("3");
        reveal_strlit("4");
        reveal_strlit("5");
        reveal_strlit("6");
        reveal_strlit("7");
        reveal_strlit("8");
        reveal_strlit("9");
    }
    let r = if d == 0 {
        "0"
    } else if d == 1 {
        "1"
    } else if d == 2 {
        "2"
    } else if d == 3 {
        "3"
    } else if d == 4 {
        "4"
    } else if d == 5 {
        "5"
    } else if d == 6 {
        "6"
    } else if d == 7 {
        "7"
    } else if d == 8 {
        "8"
    } else {
        "9"
    };
    assert(r@ =~= seq![digit_char(d as nat)]);
    r
}

/// Appends the decimal numeral of `n` to the text `out`.
pub fn push_decimal_text(out: &mut String, n: u64)
    ensures
        final(out)@ == old(out)@ + decimal_text(n as nat),
    decreases n,
{
    if n < 10 {
        out.append(digit_str(n));
    } else {
        push_decimal_text(out, n / 10);
        out.append(digit_str(n % 10));
        assert(final(out)@ =~= old(out)@ + decimal_text(n as nat));
    }
}

/// Appends the decimal numeral of `n` to the text `out`, with a minus sign
/// before it if `n` is negative.
pub fn push_signed_decimal_text(out: &mut String, n: i32)
    ensures
        final(out)@ == old(out)@ + signed_decimal_text(n as int),
{
    if n < 0 {
        proof {
            reveal_strlit("-");
        }
        out.append("-");
        let ghost with_sign = out@;
        assert(with_sign =~= old(out)@ + seq!['-']);
        let m: i64 = -(n as i64);
        push_decimal_text(out, m as u64);
        assert(out@ =~= old(out)@ + signed_decimal_text(n as int));
    } else {
        push_decimal_text(out, n as u64);
    }
}

} // verus!
