//! Byte-count units and scaling preferences.
//!
//! A byte count is rendered in a unit chosen from a fixed table: powers of
//! 1000 (KB, MB, ...) or powers of 1024 (KiB, MiB, ...), as bytes or bits.
//! `auto_exponent` picks the scale for the "auto" preference: the largest
//! power of the base that does not exceed the count.

use vstd::prelude::*;

verus! {

#[derive(Debug, Clone, Copy, PartialEq, Eq, Structural)]
pub enum Base {
    Base2,
    Base10,
}

impl Default for Base {
    fn default() -> (r: Self)
        ensures
            r == Base::Base2,
    {
        Base::Base2
    }
}

#[derive(Debug, Clone, Copy, PartialEq, Eq, Structural)]
pub enum SizePreference {
    Auto,
    K,
    M,
    G,
    T,
}

impl Default for SizePreference {
    fn default() -> (r: Self)
        ensures
            r == SizePreference::Auto,
    {
        SizePreference::Auto
    }
}

#[derive(Debug, Clone, Copy, PartialEq, Eq, Structural)]
pub enum BasePreference {
    Base2,
    Base10,
}

impl Default for BasePreference {
    fn default() -> (r: Self)
        ensures
            r == BasePreference::Base2,
    {
        BasePreference::Base2
    }
}

#[derive(Debug, Clone, Copy, PartialEq, Eq, Structural)]
#[allow(non_camel_case_types)]
pub enum Unit {
    B,
    KB,
    MB,
    GB,
    TB,
    KiB,
    MiB,
    GiB,
    TiB,
    b,
    Kb,
    Mb,
    Gb,
    Tb,
    Kib,
    Mib,
    Gib,
    Tib,
}

/// The number of bytes (or bits) that one of this unit stands for.
pub open spec fn unit_value(u: Unit) -> u64 {
    match u {
        Unit::B | Unit::b => 1,
        Unit::KB | Unit::Kb => 1000,
        Unit::MB | Unit::Mb => 1000000,
        Unit::GB | Unit::Gb => 1000000000,
        Unit::TB | Unit::Tb => 1000000000000,
        Unit::KiB | Unit::Kib => 1024,
        Unit::MiB | Unit::Mib => 1048576,
        Unit::GiB | Unit::Gib => 1073741824,
        Unit::TiB | Unit::Tib => 1099511627776,
    }
}

/// The byte unit for a scale exponent: 0 is bytes, 1 the kilo range, and so
/// on; everything from 4 up lands in the tera range.
pub open spec fn byte_unit_at(base_preference: BasePreference, index: int) -> Unit {
    if index == 0 {
        Unit::B
    } else if index == 1 {
        if base_preference == BasePreference::Base2 { Unit::KiB } else { Unit::KB }
    } else if index == 2 {
        if base_preference == BasePreference::Base2 { Unit::MiB } else { Unit::MB }
    } else if index == 3 {
        if base_preference == BasePreference::Base2 { Unit::GiB } else { Unit::GB }
    } else {
        if base_preference == BasePreference::Base2 { Unit::TiB } else { Unit::TB }
    }
}

/// The bit unit for a scale exponent, chosen like `byte_unit_at`.
pub open spec fn bit_unit_at(base_preference: BasePreference, index: int) -> Unit {
    if index == 0 {
        Unit::b
    } else if index == 1 {
        if base_preference == BasePreference::Base2 { Unit::Kib } else { Unit::Kb }
    } else if index == 2 {
        if base_preference == BasePreference::Base2 { Unit::Mib } else { Unit::Mb }
    } else if index == 3 {
        if base_preference == BasePreference::Base2 { Unit::Gib } else { Unit::Gb }
    } else {
        if base_preference == BasePreference::Base2 { Unit::Tib } else { Unit::Tb }
    }
}

impl Unit {
    pub fn value(&self) -> (r: u64)
        ensures
            r == unit_value(*self),
    {
        match self {
            Unit::B | Unit::b => 1,
            Unit::KB | Unit::Kb => 1000,
            Unit::MB | Unit::Mb => 1000000,
            Unit::GB | Unit::Gb => 1000000000,
            Unit::TB | Unit::Tb => 1000000000000,
            Unit::KiB | Unit::Kib => 1024,
            Unit::MiB | Unit::Mib => 1048576,
            Unit::GiB | Unit::Gib => 1073741824,
            Unit::TiB | Unit::Tib => 1099511627776,
        }
    }

    pub fn by_index_byte(base_preference: BasePreference, index: usize) -> (r: Option<Unit>)
        ensures
            r == Some(byte_unit_at(base_preference, index as int)),
    {
        match index {
            0 => Some(Unit::B),
            1 => if base_preference == BasePreference::Base2 { Some(Unit::KiB) } else { Some(Unit::KB) },
            2 => if base_preference == BasePreference::Base2 { Some(Unit::MiB) } else { Some(Unit::MB) },
            3 => if base_preference == BasePreference::Base2 { Some(Unit::GiB) } else { Some(Unit::GB) },
            _ => if base_preference == BasePreference::Base2 { Some(Unit::TiB) } else { Some(Unit::TB) },
        }
    }

    pub fn by_index_bit(base_preference: BasePreference, index: usize) -> (r: Option<Unit>)
        ensures
            r == Some(bit_unit_at(base_preference, index as int)),
    {
        match index {
            0 => Some(Unit::b),
            1 => if base_preference == BasePreference::Base2 { Some(Unit::Kib) } else { Some(Unit::Kb) },
            2 => if base_preference == BasePreference::Base2 { Some(Unit::Mib) } else { Some(Unit::Mb) },
            3 => if base_preference == BasePreference::Base2 { Some(Unit::Gib) } else { Some(Unit::Gb) },
            _ => if base_preference == BasePreference::Base2 { Some(Unit::Tib) } else { Some(Unit::Tb) },
        }
    }
}

/// A byte count together with the preferences that govern how it is scaled
/// for display.  The floating-point division itself is a presentation
/// concern and happens outside the library.
#[derive(Debug, Clone, Copy, PartialEq, Eq, Structural)]
pub struct NBytes {
    pub n: u64,
    pub size_preference: SizePreference,
    pub base_preference: BasePreference,
}

impl Default for NBytes {
    fn default() -> (r: Self)
        ensures
            r.n == 0,
            r.size_preference == SizePreference::Auto,
            r.base_preference == BasePreference::Base2,
    {
        NBytes { n: 0, size_preference: SizePreference::Auto, base_preference: BasePreference::Base2 }
    }
}

impl NBytes {
    pub fn add_bytes(&mut self, rhs: u64)
        requires
            old(self).n + rhs <= u64::MAX,
        ensures
            final(self).n == old(self).n + rhs,
            final(self).size_preference == old(self).size_preference,
            final(self).base_preference == old(self).base_preference,
    {
        self.n = self.n + rhs;
    }
}

} // verus!
// === suffixed numbers and automatic scaling ===

use crate::codec::num::digits_val;
use crate::codec::num::is_digit;
use crate::codec::num::lemma_digits_val_monotone;
use crate::codec::num::lemma_digits_val_nonneg;
use crate::messages::NBError;
use vstd::string::StringSliceAdditionalSpecFns;
use vstd::arithmetic::div_mod::lemma_fundamental_div_mod;
use vstd::arithmetic::mul::lemma_mul_inequality;

verus! {

/// The multiplier a size-suffix letter stands for: lower-case letters are
/// binary (powers of 1024), upper-case decimal (powers of 1000).
pub open spec fn suffix_factor(b: u8) -> Option<u64> {
    if b == 107 {  // k
        Some(1024)
    } else if b == 109 {  // m
        Some(1048576)
    } else if b == 103 {  // g
        Some(1073741824)
    } else if b == 116 {  // t
        Some(1099511627776)
    } else if b == 75 {  // K
        Some(1000)
    } else if b == 77 {  // M
        Some(1000000)
    } else if b == 71 {  // G
        Some(1000000000)
    } else if b == 84 {  // T
        Some(1000000000000)
    } else {
        None
    }
}

/// A well-formed suffixed number: decimal digits, optionally followed by
/// one suffix letter.  The empty string is allowed and reads as zero.
pub open spec fn suffix_wf(b: Seq<u8>) -> bool {
    if b.len() == 0 {
        true
    } else if is_digit(b.last()) {
        forall|t: int| 0 <= t < b.len() ==> is_digit(#[trigger] b[t])
    } else {
        suffix_factor(b.last()) is Some && forall|t: int|
            0 <= t < b.len() - 1 ==> is_digit(#[trigger] b[t])
    }
}

/// The value of a well-formed suffixed number: the digits' value times
/// the suffix's multiplier.
pub open spec fn suffix_value(b: Seq<u8>) -> int {
    if b.len() == 0 {
        0
    } else if is_digit(b.last()) {
        digits_val(b, 0, b.len() as int)
    } else {
        digits_val(b, 0, b.len() - 1) * (suffix_factor(b.last()).unwrap() as int)
    }
}

/// The multiplier of a suffix byte, executable.
fn suffix_factor_e(b: u8) -> (r: Option<u64>)
    ensures
        r == suffix_factor(b),
{
    match b {
        107 => Some(1024),
        109 => Some(1048576),
        103 => Some(1073741824),
        116 => Some(1099511627776),
        75 => Some(1000),
        77 => Some(1000000),
        71 => Some(1000000000),
        84 => Some(1000000000000),
        _ => None,
    }
}

/// Reads a byte count such as `123`, `1k` (1024) or `1K` (1000): ASCII
/// decimal digits with at most one trailing suffix letter.  Returns `Ok`
/// exactly for well-formed inputs whose value fits in `u64`; everything
/// else is a `ParseSuffixError`.
pub fn parse_u64_with_suffix(s: &str) -> (r: Result<u64, NBError>)
    ensures
        !s.is_ascii() ==> (r matches Err(NBError::ParseSuffixError(_))),
        s.is_ascii() ==> {
            if suffix_wf(s.spec_bytes()) && suffix_value(s.spec_bytes()) <= u64::MAX {
                r == Ok::<u64, NBError>(suffix_value(s.spec_bytes()) as u64)
            } else {
                r matches Err(NBError::ParseSuffixError(_))
            }
        },
{
    if !s.is_ascii() {
        return Err(NBError::ParseSuffixError("the input has to be ASCII"));
    }
    let b: &[u8] = s.as_bytes();
    let n = b.len();
    if n == 0 {
        return Ok(0);
    }
    let last = b[n - 1];
    let digit_count: usize;
    let factor: u64;
    if last >= 48 && last <= 57 {
        digit_count = n;
        factor = 1;
    } else {
        match suffix_factor_e(last) {
            Some(f) => {
                digit_count = n - 1;
                factor = f;
            },
            None => {
                return Err(NBError::ParseSuffixError("invalid suffix"));
            },
        }
    }
    let ghost bs = b@;
    let mut acc: u64 = 0;
    let mut i: usize = 0;
    while i < digit_count
        invariant
            0 <= i <= digit_count <= n,
            1 <= n,
            n == bs.len(),
            bs == b@,
            bs == s.spec_bytes(),
            s.is_ascii(),
            digit_count == n || digit_count == n - 1,
            factor >= 1,
            digit_count == n ==> is_digit(bs.last()),
            digit_count == n - 1 ==> suffix_factor(bs.last()) == Some(factor),
            forall|t: int| 0 <= t < i ==> is_digit(#[trigger] bs[t]),
            acc == digits_val(bs, 0, i as int),
        decreases digit_count - i,
    {
        let d = b[i];
        if d < 48 || d > 57 {
            // a non-digit before the suffix position: not well-formed
            proof {
                assert(!suffix_wf(bs)) by {
                    if digit_count < n {
                        assert(suffix_factor(bs.last()) is Some);
                        assert(!is_digit(bs.last()));
                    }
                }
            }
            return Err(NBError::ParseSuffixError(
                "a char that is not a modifier is not a digit",
            ));
        }
        let dv: u64 = (d - 48) as u64;
        if acc > (u64::MAX - dv) / 10 {
            proof {
                lemma_overflow_digits(bs, i as int, digit_count as int, acc, dv);
            }
            return Err(NBError::ParseSuffixError("the number does not fit in 64 bits"));
        }
        proof {
            let m = (u64::MAX - dv) as int;
            lemma_fundamental_div_mod(m, 10);
            lemma_mul_inequality(acc as int, m / 10, 10);
            assert(digits_val(bs, 0, i + 1) == acc * 10 + dv);
        }
        acc = acc * 10 + dv;
        i = i + 1;
    }
    if factor > 1 {
        if acc > u64::MAX / factor {
            proof {
                lemma_overflow_factor(bs, digit_count as int, acc, factor);
            }
            return Err(NBError::ParseSuffixError("the number does not fit in 64 bits"));
        }
        proof {
            lemma_fundamental_div_mod(u64::MAX as int, factor as int);
            lemma_mul_inequality(acc as int, (u64::MAX / factor) as int, factor as int);
        }
        acc = acc * factor;
    }
    Ok(acc)
}

/// If a digit prefix already exceeds `u64`, any well-formed reading of
/// the whole input does too.
proof fn lemma_overflow_digits(bs: Seq<u8>, i: int, digit_count: int, acc: u64, dv: u64)
    requires
        0 <= i < digit_count <= bs.len(),
        digit_count == bs.len() || digit_count == bs.len() - 1,
        digit_count == bs.len() ==> is_digit(bs.last()),
        digit_count == bs.len() - 1 ==> suffix_factor(bs.last()) is Some,
        acc == digits_val(bs, 0, i),
        is_digit(bs[i]),
        dv == bs[i] - 48,
        acc > (u64::MAX - dv) / 10,
    ensures
        suffix_wf(bs) ==> suffix_value(bs) > u64::MAX,
{
    if suffix_wf(bs) {
        assert(forall|t: int| 0 <= t < digit_count ==> is_digit(#[trigger] bs[t])) by {
            if digit_count == bs.len() - 1 {
                assert(!is_digit(bs.last()));
            }
        }
        let m = (u64::MAX - dv) as int;
        lemma_fundamental_div_mod(m, 10);
        lemma_mul_inequality(m / 10 + 1, acc as int, 10);
        assert(digits_val(bs, 0, i + 1) == acc * 10 + dv);
        lemma_digits_val_monotone(bs, 0, i + 1, digit_count);
        if digit_count == bs.len() - 1 {
            assert(!is_digit(bs.last()));
            let f = suffix_factor(bs.last()).unwrap() as int;
            assert(f >= 1000);
            lemma_digits_val_nonneg(bs, 0, digit_count);
            lemma_mul_inequality(1, f, digits_val(bs, 0, digit_count));
            assert(suffix_value(bs) == f * digits_val(bs, 0, digit_count))
                by {
                vstd::arithmetic::mul::lemma_mul_is_commutative(
                    digits_val(bs, 0, digit_count),
                    f,
                );
            }
        }
    }
}

/// If the digit value times the suffix multiplier exceeds `u64`, the
/// suffixed value does.
proof fn lemma_overflow_factor(bs: Seq<u8>, digit_count: int, acc: u64, factor: u64)
    requires
        bs.len() >= 1,
        digit_count == bs.len() - 1,
        suffix_factor(bs.last()) == Some(factor),
        acc == digits_val(bs, 0, digit_count),
        factor >= 1,
        acc > u64::MAX / factor,
    ensures
        suffix_value(bs) > u64::MAX,
{
    assert(!is_digit(bs.last()));
    lemma_fundamental_div_mod(u64::MAX as int, factor as int);
    lemma_mul_inequality((u64::MAX / factor) as int + 1, acc as int, factor as int);
}

/// Largest power of the base that does not exceed the count: the scale
/// exponent for the "auto" size preference.
pub open spec fn pow_of(base: nat, e: nat) -> nat
    decreases e,
{
    if e == 0 {
        1
    } else {
        base * pow_of(base, (e - 1) as nat)
    }
}

/// The automatic scale exponent of a byte count: 0 for zero; otherwise
/// the floor of the base logarithm, the base being 1024 or 1000.
pub fn auto_exponent(n: u64, base_preference: BasePreference) -> (e: u32)
    ensures
        ({
            let b: nat = if base_preference == BasePreference::Base2 { 1024 } else { 1000 };
            &&& n == 0 ==> e == 0
            &&& n > 0 ==> pow_of(b, e as nat) <= n < pow_of(b, (e + 1) as nat)
        }),
{
    proof {
        reveal_with_fuel(pow_of, 8);
    }
    if base_preference == BasePreference::Base2 {
        if n < 1024 {
            0
        } else if n < 1048576 {
            1
        } else if n < 1073741824 {
            2
        } else if n < 1099511627776 {
            3
        } else if n < 1125899906842624 {
            4
        } else if n < 1152921504606846976 {
            5
        } else {
            6
        }
    } else {
        if n < 1000 {
            0
        } else if n < 1000000 {
            1
        } else if n < 1000000000 {
            2
        } else if n < 1000000000000 {
            3
        } else if n < 1000000000000000 {
            4
        } else if n < 1000000000000000000 {
            5
        } else {
            6
        }
    }
}

} // verus!
