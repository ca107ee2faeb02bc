//! Decimal numbers inside the JSON bodies.
//!
//! `dec_digits` is the canonical (shortest) decimal form of a number;
//! `parse_u64_at` reads a maximal run of digits.  The lemmas connect the
//! two: the canonical form followed by a non-digit parses back to the same
//! number.

use vstd::arithmetic::div_mod::lemma_fundamental_div_mod;
use vstd::prelude::*;

verus! {

/// ASCII digit.
pub open spec fn is_digit(b: u8) -> bool {
    48 <= b && b <= 57
}

/// Canonical decimal form of `n`: no sign, no leading zeros.
pub open spec fn dec_digits(n: nat) -> Seq<u8>
    decreases n,
{
    if n < 10 {
        seq![(48 + n) as u8]
    } else {
        dec_digits(n / 10).push((48 + n % 10) as u8)
    }
}

/// The end of the digit run that starts at `i`.
pub open spec fn digits_end(s: Seq<u8>, i: int) -> int
    decreases s.len() - i,
{
    if i < 0 || i >= s.len() {
        i
    } else if !is_digit(s[i]) {
        i
    } else {
        digits_end(s, i + 1)
    }
}

/// The value of the digit bytes in `[i, j)`.
pub open spec fn digits_val(s: Seq<u8>, i: int, j: int) -> int
    decreases j - i,
{
    if i >= j {
        0
    } else {
        digits_val(s, i, j - 1) * 10 + (s[j - 1] - 48)
    }
}

/// Maximal-munch decimal parse at `i`: at least one digit, value within
/// `u64`.
pub open spec fn parse_u64_at(s: Seq<u8>, i: int) -> Option<(u64, int)> {
    if i < 0 {
        None
    } else {
        let j = digits_end(s, i);
        if j == i || digits_val(s, i, j) > u64::MAX {
            None
        } else {
            Some((digits_val(s, i, j) as u64, j))
        }
    }
}

pub proof fn lemma_dec_digits_wf(n: nat)
    ensures
        dec_digits(n).len() >= 1,
        forall|k: int| 0 <= k < dec_digits(n).len() ==> is_digit(#[trigger] dec_digits(n)[k]),
    decreases n,
{
    if n >= 10 {
        lemma_dec_digits_wf(n / 10);
    }
}

/// A digit run bounded on the right ends exactly there.
proof fn lemma_digits_end_from(s: Seq<u8>, i: int, j: int)
    requires
        0 <= i <= j <= s.len(),
        forall|t: int| i <= t < j ==> is_digit(#[trigger] s[t]),
        j == s.len() || !is_digit(s[j]),
    ensures
        digits_end(s, i) == j,
    decreases j - i,
{
    if i < j {
        lemma_digits_end_from(s, i + 1, j);
    }
}

/// The value of the canonical form of `n`, read back from a sequence that
/// holds it as a subrange, is `n` again.
proof fn lemma_digits_val_of_dec(s: Seq<u8>, i: int, n: nat)
    requires
        0 <= i,
        i + dec_digits(n).len() <= s.len(),
        s.subrange(i, i + dec_digits(n).len() as int) == dec_digits(n),
    ensures
        digits_val(s, i, i + dec_digits(n).len() as int) == n,
    decreases n,
{
    let d = dec_digits(n);
    let j = i + d.len() as int;
    assert(s[j - 1] == d[d.len() - 1]);
    if n < 10 {
        assert(digits_val(s, i, j) == digits_val(s, i, i) * 10 + (s[j - 1] - 48));
    } else {
        let dp = dec_digits(n / 10);
        assert(d == dp.push((48 + n % 10) as u8));
        assert(s.subrange(i, i + dp.len() as int) =~= dp) by {
            assert forall|t: int| 0 <= t < dp.len() implies s.subrange(
                i,
                i + dp.len() as int,
            )[t] == dp[t] by {
                assert(s.subrange(i, j)[t] == dp.push((48 + n % 10) as u8)[t]);
            }
        }
        lemma_digits_val_of_dec(s, i, n / 10);
        assert(s[j - 1] == (48 + n % 10) as u8);
        lemma_fundamental_div_mod(n as int, 10);
    }
}

/// The canonical decimal form of `n`, written at `i` and followed by a
/// non-digit (or the end), parses back to exactly `n`.
pub proof fn lemma_parse_dec_at(s: Seq<u8>, i: int, n: u64)
    requires
        0 <= i,
        i + dec_digits(n as nat).len() <= s.len(),
        s.subrange(i, i + dec_digits(n as nat).len() as int) == dec_digits(n as nat),
        i + dec_digits(n as nat).len() == s.len() || !is_digit(
            s[i + dec_digits(n as nat).len()],
        ),
    ensures
        parse_u64_at(s, i) == Some((n, i + dec_digits(n as nat).len() as int)),
{
    let d = dec_digits(n as nat);
    let j = i + d.len() as int;
    lemma_dec_digits_wf(n as nat);
    assert forall|t: int| i <= t < j implies is_digit(#[trigger] s[t]) by {
        assert(s.subrange(i, j)[t - i] == d[t - i]);
    }
    lemma_digits_end_from(s, i, j);
    lemma_digits_val_of_dec(s, i, n as nat);
}

/// The value of a range of digits is never negative.
pub proof fn lemma_digits_val_nonneg(s: Seq<u8>, i: int, j: int)
    requires
        0 <= i,
        j <= s.len(),
        forall|t: int| i <= t < j ==> is_digit(#[trigger] s[t]),
    ensures
        digits_val(s, i, j) >= 0,
    decreases j - i,
{
    if i < j {
        lemma_digits_val_nonneg(s, i, j - 1);
        assert(is_digit(s[j - 1]));
    }
}

/// Appending digits never shrinks the value: the prefix value bounds the
/// whole-run value from below.
pub proof fn lemma_digits_val_monotone(s: Seq<u8>, i: int, j: int, k: int)
    requires
        0 <= i <= j <= k <= s.len(),
        forall|t: int| i <= t < k ==> is_digit(#[trigger] s[t]),
    ensures
        digits_val(s, i, k) >= digits_val(s, i, j),
    decreases k - j,
{
    if j < k {
        lemma_digits_val_nonneg(s, i, j);
        assert(is_digit(s[j]));
        assert(digits_val(s, i, j + 1) == digits_val(s, i, j) * 10 + (s[j] - 48));
        lemma_digits_val_monotone(s, i, j + 1, k);
    }
}

/// Every position of a digit run up to `digits_end` is a digit.
proof fn lemma_digits_end_digits(s: Seq<u8>, i: int, t: int)
    requires
        0 <= i,
        i <= t < digits_end(s, i),
    ensures
        t < s.len() && is_digit(s[t]),
    decreases t - i,
{
    if i < t {
        lemma_digits_end_digits(s, i + 1, t);
    }
}

/// Maximal-munch decimal parse, executable.  Mirrors `parse_u64_at`,
/// rejecting runs whose value does not fit in `u64`.
pub fn parse_number(s: &[u8], i: usize) -> (r: Option<(u64, usize)>)
    ensures
        match r {
            Some(v) => {
                &&& parse_u64_at(s@, i as int) == Some((v.0, v.1 as int))
                &&& i < v.1 <= s@.len()
            },
            None => parse_u64_at(s@, i as int) is None,
        },
{
    let n = s.len();
    if i >= n || s[i] < 48 || s[i] > 57 {
        proof {
            if (i as int) < s@.len() {
                assert(digits_end(s@, i as int) == i);
            }
        }
        return None;
    }
    let ghost de = digits_end(s@, i as int);
    proof {
        lemma_digits_end_in_range(s@, i as int);
    }
    let mut j: usize = i;
    let mut acc: u64 = 0;
    while j < n && s[j] >= 48 && s[j] <= 57
        invariant
            i <= j <= n,
            n == s@.len(),
            forall|t: int| i <= t < j ==> is_digit(#[trigger] s@[t]),
            acc == digits_val(s@, i as int, j as int),
            j < n ==> j <= de,
            de == digits_end(s@, i as int),
            i <= de <= n,
        decreases n - j,
    {
        let d: u64 = (s[j] - 48) as u64;
        proof {
            lemma_digits_end_from_partial(s@, i as int, j as int);
        }
        if acc > (u64::MAX - d) / 10 {
            // the run's value already exceeds u64: the whole run does too
            proof {
                assert(acc * 10 + d > u64::MAX) by {
                    let m = (u64::MAX - d) as int;
                    assert(acc as int >= m / 10 + 1);
                    assert((m / 10 + 1) * 10 >= m + 1) by {
                        lemma_fundamental_div_mod(m, 10);
                    }
                    assert(acc * 10 >= (m / 10 + 1) * 10) by {
                        vstd::arithmetic::mul::lemma_mul_inequality(
                            m / 10 + 1,
                            acc as int,
                            10,
                        );
                    }
                }
                assert(digits_val(s@, i as int, j + 1) == acc * 10 + d);
                assert forall|t: int| i <= t < de implies is_digit(#[trigger] s@[t]) by {
                    lemma_digits_end_digits(s@, i as int, t);
                }
                lemma_digits_val_monotone(s@, i as int, j + 1, de);
            }
            return None;
        }
        proof {
            assert(acc * 10 + d <= u64::MAX) by {
                let m = (u64::MAX - d) as int;
                lemma_fundamental_div_mod(m, 10);
                vstd::arithmetic::mul::lemma_mul_inequality(acc as int, m / 10, 10);
            }
            assert(digits_val(s@, i as int, j + 1) == acc * 10 + d);
        }
        acc = acc * 10 + d;
        j = j + 1;
    }
    proof {
        lemma_digits_end_from(s@, i as int, j as int);
    }
    Some((acc, j))
}

/// `digits_end` stays within the sequence.
proof fn lemma_digits_end_in_range(s: Seq<u8>, i: int)
    requires
        0 <= i <= s.len(),
    ensures
        i <= digits_end(s, i) <= s.len(),
    decreases s.len() - i,
{
    if i < s.len() && is_digit(s[i]) {
        lemma_digits_end_in_range(s, i + 1);
    }
}

/// A position inside an unbroken digit run lies at or before its end.
proof fn lemma_digits_end_from_partial(s: Seq<u8>, i: int, j: int)
    requires
        0 <= i <= j,
        j < s.len(),
        forall|t: int| i <= t < j ==> is_digit(#[trigger] s[t]),
        is_digit(s[j]),
    ensures
        j + 1 <= digits_end(s, i),
    decreases j - i,
{
    if i < j {
        lemma_digits_end_from_partial(s, i + 1, j);
    } else {
        lemma_digits_end_in_range(s, i + 1);
    }
}

/// Appends the canonical decimal form of `n`.
pub fn push_dec(out: &mut Vec<u8>, n: u64)
    ensures
        final(out)@ == old(out)@ + dec_digits(n as nat),
    decreases n,
{
    if n >= 10 {
        push_dec(out, n / 10);
        let d: u8 = 48 + (n % 10) as u8;
        out.push(d);
        proof {
            assert(out@ =~= old(out)@ + dec_digits(n as nat));
        }
    } else {
        let d: u8 = 48 + n as u8;
        out.push(d);
        proof {
            assert(out@ =~= old(out)@ + dec_digits(n as nat));
        }
    }
}

} // verus!
// === length bounds ===

verus! {

/// Powers of ten.
pub open spec fn pow10(k: nat) -> nat
    decreases k,
{
    if k == 0 {
        1
    } else {
        10 * pow10((k - 1) as nat)
    }
}

/// A number below `10^k` has at most `k` decimal digits.
pub proof fn lemma_dec_digits_len(n: nat, k: nat)
    requires
        1 <= k,
        n < pow10(k),
    ensures
        dec_digits(n).len() <= k,
    decreases k,
{
    if n >= 10 {
        assert(pow10(k) == 10 * pow10((k - 1) as nat));
        lemma_fundamental_div_mod(n as int, 10);
        assert(n / 10 < pow10((k - 1) as nat)) by {
            if n / 10 >= pow10((k - 1) as nat) {
                vstd::arithmetic::mul::lemma_mul_inequality(
                    pow10((k - 1) as nat) as int,
                    (n / 10) as int,
                    10,
                );
            }
        }
        lemma_dec_digits_len(n / 10, (k - 1) as nat);
    }
}

/// Any `u64` value needs at most 20 decimal digits.
pub proof fn lemma_dec_digits_len_u64(n: u64)
    ensures
        dec_digits(n as nat).len() <= 20,
{
    reveal_with_fuel(pow10, 21);
    assert(pow10(20) == 100000000000000000000);
    lemma_dec_digits_len(n as nat, 20);
}

/// Any byte value needs at most 3 decimal digits.
pub proof fn lemma_dec_digits_len_u8(n: u8)
    ensures
        dec_digits(n as nat).len() <= 3,
{
    reveal_with_fuel(pow10, 4);
    assert(pow10(3) == 1000);
    lemma_dec_digits_len(n as nat, 3);
}

} // verus!
