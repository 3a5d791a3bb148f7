//! Canonical fixed-width unsigned integer type for every numeric value that
//! crosses the proof/program boundary.
//!
//! A `FieldElement` stores a value of the STARK field (prime
//! `2^251 + 17 * 2^192 + 1`) in four 64-bit limbs, least significant first.
//! Parsing accepts `0x`-prefixed hexadecimal or decimal text and rejects any
//! value at or above the field prime; nothing is ever silently reduced.

use vstd::prelude::*;
use vstd::string::StrSliceExecFns;

verus! {

/// The STARK field prime: `2^251 + 17 * 2^192 + 1`.
pub open spec fn prime() -> int {
    0x800000000000011000000000000000000000000000000000000000000000001int
}

/// `2^256`: one past the largest value four 64-bit limbs can hold.
pub open spec fn limb_cap() -> int {
    0x10000000000000000000000000000000000000000000000000000000000000000int
}

/// A field element as four 64-bit limbs, least significant first.
#[derive(Clone, Copy, Debug, PartialEq, Eq, Structural, Hash)]
pub struct FieldElement {
    pub l0: u64,
    pub l1: u64,
    pub l2: u64,
    pub l3: u64,
}

impl FieldElement {
    /// The integer this element stands for.
    pub open spec fn value(self) -> int {
        self.l0 + self.l1 * 0x10000000000000000
            + self.l2 * 0x100000000000000000000000000000000int
            + self.l3 * 0x1000000000000000000000000000000000000000000000000int
    }

    /// Well-formed: the value lies in the field.
    pub open spec fn wf(self) -> bool {
        self.value() < prime()
    }

    pub fn zero() -> (r: FieldElement)
        ensures
            r.value() == 0,
            r.wf(),
    {
        FieldElement { l0: 0, l1: 0, l2: 0, l3: 0 }
    }

    pub fn from_u64(x: u64) -> (r: FieldElement)
        ensures
            r.value() == x,
            r.wf(),
    {
        FieldElement { l0: x, l1: 0, l2: 0, l3: 0 }
    }
}

/// The limb form of a value below `2^256`.
pub open spec fn felt_of(v: int) -> FieldElement {
    FieldElement {
        l0: (v % 0x10000000000000000) as u64,
        l1: ((v / 0x10000000000000000) % 0x10000000000000000) as u64,
        l2: ((v / 0x100000000000000000000000000000000int) % 0x10000000000000000) as u64,
        l3: ((v / 0x1000000000000000000000000000000000000000000000000int) % 0x10000000000000000) as u64,
    }
}

/// `felt_of` inverts `value` on the representable range.
pub proof fn lemma_felt_of_val(v: int)
    requires
        0 <= v < limb_cap(),
    ensures
        felt_of(v).value() == v,
{
    let b1: int = 0x10000000000000000;
    let b2: int = 0x100000000000000000000000000000000int;
    let b3: int = 0x1000000000000000000000000000000000000000000000000int;
    vstd::arithmetic::div_mod::lemma_fundamental_div_mod(v, b1);
    vstd::arithmetic::div_mod::lemma_fundamental_div_mod(v / b1, b1);
    vstd::arithmetic::div_mod::lemma_fundamental_div_mod(v / b2, b1);
    vstd::arithmetic::div_mod::lemma_div_denominator(v, b1, b1);
    vstd::arithmetic::div_mod::lemma_div_denominator(v, b2, b1);
    vstd::arithmetic::div_mod::lemma_mod_bound(v, b1);
    vstd::arithmetic::div_mod::lemma_mod_bound(v / b1, b1);
    vstd::arithmetic::div_mod::lemma_mod_bound(v / b2, b1);
    vstd::arithmetic::div_mod::lemma_mod_bound(v / b3, b1);
    assert(v / b3 < b1) by (nonlinear_arith)
        requires 0 <= v < limb_cap(), b1 == 0x10000000000000000,
            b3 == 0x1000000000000000000000000000000000000000000000000int;
    assert(0 <= v / b3) by (nonlinear_arith)
        requires 0 <= v, b3 == 0x1000000000000000000000000000000000000000000000000int;
    vstd::arithmetic::div_mod::lemma_fundamental_div_mod_converse_mod(
        v / b3, b1, 0, v / b3);
}

/// The prime itself in limb form; not a field value, only a bound to
/// compare and subtract against.
fn prime_limbs() -> (r: FieldElement)
    ensures
        r.value() == prime(),
{
    FieldElement { l0: 1, l1: 0, l2: 0, l3: 0x0800000000000011 }
}

/// Value-based strict ordering.
pub fn felt_lt(a: &FieldElement, b: &FieldElement) -> (r: bool)
    ensures
        r == (a.value() < b.value()),
{
    if a.l3 != b.l3 {
        a.l3 < b.l3
    } else if a.l2 != b.l2 {
        a.l2 < b.l2
    } else if a.l1 != b.l1 {
        a.l1 < b.l1
    } else {
        a.l0 < b.l0
    }
}

/// Value-based non-strict ordering.
pub fn felt_le(a: &FieldElement, b: &FieldElement) -> (r: bool)
    ensures
        r == (a.value() <= b.value()),
{
    !felt_lt(b, a)
}

/// Two elements with the same value are the same limbs: `value` is injective.
pub proof fn lemma_value_injective(a: FieldElement, b: FieldElement)
    requires
        a.value() == b.value(),
    ensures
        a == b,
{
    let ghost d1: int = a.l1 - b.l1 + (a.l2 - b.l2) * 0x10000000000000000
        + (a.l3 - b.l3) * 0x100000000000000000000000000000000int;
    assert(a.l0 - b.l0 + d1 * 0x10000000000000000 == 0);
    assert(a.l0 == b.l0);
    let ghost d2: int = a.l2 - b.l2 + (a.l3 - b.l3) * 0x10000000000000000;
    assert(a.l1 - b.l1 + d2 * 0x10000000000000000 == 0);
    assert(a.l1 == b.l1);
    assert(a.l2 - b.l2 + (a.l3 - b.l3) * 0x10000000000000000 == 0);
    assert(a.l2 == b.l2 && a.l3 == b.l3);
}

/// Split a 128-bit intermediate into a carry and a 64-bit limb.
proof fn lemma_split(t: u128)
    ensures
        t == (t >> 64) * 0x10000000000000000 + (t & 0xFFFF_FFFF_FFFF_FFFF),
        (t & 0xFFFF_FFFF_FFFF_FFFF) < 0x10000000000000000,
        (t >> 64) < 0x10000000000000000,
{
    assert(t == (t >> 64) * 0x10000000000000000 + (t & 0xFFFF_FFFF_FFFF_FFFF)) by (bit_vector);
    assert((t & 0xFFFF_FFFF_FFFF_FFFF) < 0x10000000000000000) by (bit_vector);
    assert((t >> 64) < 0x10000000000000000) by (bit_vector);
}

/// `a * m + d` over the limbs, for a small multiplier; `None` when the
/// result would not fit in four limbs.
fn mul_small_add(a: &FieldElement, m: u64, d: u64) -> (r: Option<FieldElement>)
    requires
        1 <= m <= 16,
        d < 16,
    ensures
        match r {
            Some(f) => f.value() == a.value() * m + d,
            None => a.value() * m + d >= limb_cap(),
        },
{
    proof {
        assert((a.l0 as u128) * (m as u128) <= 0xFFFF_FFFF_FFFF_FFFFu128 * 16) by (nonlinear_arith)
            requires a.l0 <= 0xFFFF_FFFF_FFFF_FFFFu64 && m <= 16u64;
    }
    let t0: u128 = (a.l0 as u128) * (m as u128) + (d as u128);
    proof {
        lemma_split(t0);
        assert((a.l1 as u128) * (m as u128) <= 0xFFFF_FFFF_FFFF_FFFFu128 * 16) by (nonlinear_arith)
            requires a.l1 <= 0xFFFF_FFFF_FFFF_FFFFu64 && m <= 16u64;
    }
    let t1: u128 = (a.l1 as u128) * (m as u128) + (t0 >> 64);
    proof {
        lemma_split(t1);
        assert((a.l2 as u128) * (m as u128) <= 0xFFFF_FFFF_FFFF_FFFFu128 * 16) by (nonlinear_arith)
            requires a.l2 <= 0xFFFF_FFFF_FFFF_FFFFu64 && m <= 16u64;
    }
    let t2: u128 = (a.l2 as u128) * (m as u128) + (t1 >> 64);
    proof {
        lemma_split(t2);
        assert((a.l3 as u128) * (m as u128) <= 0xFFFF_FFFF_FFFF_FFFFu128 * 16) by (nonlinear_arith)
            requires a.l3 <= 0xFFFF_FFFF_FFFF_FFFFu64 && m <= 16u64;
    }
    let t3: u128 = (a.l3 as u128) * (m as u128) + (t2 >> 64);
    proof {
        lemma_split(t3);
        assert(a.value() * m + d == (t0 & 0xFFFF_FFFF_FFFF_FFFF)
            + (t1 & 0xFFFF_FFFF_FFFF_FFFF) * 0x10000000000000000
            + (t2 & 0xFFFF_FFFF_FFFF_FFFF) * 0x100000000000000000000000000000000int
            + (t3 & 0xFFFF_FFFF_FFFF_FFFF) * 0x1000000000000000000000000000000000000000000000000int
            + (t3 >> 64) * 0x10000000000000000000000000000000000000000000000000000000000000000int)
            by (nonlinear_arith)
            requires
                t0 == a.l0 * m + d,
                t1 == a.l1 * m + (t0 >> 64),
                t2 == a.l2 * m + (t1 >> 64),
                t3 == a.l3 * m + (t2 >> 64),
                t0 == (t0 >> 64) * 0x10000000000000000 + (t0 & 0xFFFF_FFFF_FFFF_FFFF),
                t1 == (t1 >> 64) * 0x10000000000000000 + (t1 & 0xFFFF_FFFF_FFFF_FFFF),
                t2 == (t2 >> 64) * 0x10000000000000000 + (t2 & 0xFFFF_FFFF_FFFF_FFFF),
                t3 == (t3 >> 64) * 0x10000000000000000 + (t3 & 0xFFFF_FFFF_FFFF_FFFF),
                a.value() == a.l0 + a.l1 * 0x10000000000000000
                    + a.l2 * 0x100000000000000000000000000000000int
                    + a.l3 * 0x1000000000000000000000000000000000000000000000000int;
    }
    if (t3 >> 64) != 0 {
        return None;
    }
    Some(FieldElement {
        l0: (t0 & 0xFFFF_FFFF_FFFF_FFFF) as u64,
        l1: (t1 & 0xFFFF_FFFF_FFFF_FFFF) as u64,
        l2: (t2 & 0xFFFF_FFFF_FFFF_FFFF) as u64,
        l3: (t3 & 0xFFFF_FFFF_FFFF_FFFF) as u64,
    })
}

/// `a + b` over the limbs; the caller guarantees the sum fits.
fn add_raw(a: &FieldElement, b: &FieldElement) -> (r: FieldElement)
    requires
        a.value() + b.value() < limb_cap(),
    ensures
        r.value() == a.value() + b.value(),
{
    let t0: u128 = (a.l0 as u128) + (b.l0 as u128);
    proof { lemma_split(t0); }
    let t1: u128 = (a.l1 as u128) + (b.l1 as u128) + (t0 >> 64);
    proof { lemma_split(t1); }
    let t2: u128 = (a.l2 as u128) + (b.l2 as u128) + (t1 >> 64);
    proof { lemma_split(t2); }
    let t3: u128 = (a.l3 as u128) + (b.l3 as u128) + (t2 >> 64);
    proof { lemma_split(t3); }
    let r = FieldElement {
        l0: (t0 & 0xFFFF_FFFF_FFFF_FFFF) as u64,
        l1: (t1 & 0xFFFF_FFFF_FFFF_FFFF) as u64,
        l2: (t2 & 0xFFFF_FFFF_FFFF_FFFF) as u64,
        l3: (t3 & 0xFFFF_FFFF_FFFF_FFFF) as u64,
    };
    proof {
        assert(r.value() + (t3 >> 64) * 0x10000000000000000000000000000000000000000000000000000000000000000int
            == a.value() + b.value());
        assert((t3 >> 64) == 0);
    }
    r
}

/// `a - b` over the limbs; the caller guarantees `b <= a`.
fn sub_raw(a: &FieldElement, b: &FieldElement) -> (r: FieldElement)
    requires
        b.value() <= a.value(),
    ensures
        r.value() == a.value() - b.value(),
{
    let t0: u128 = 0x10000000000000000u128 + (a.l0 as u128) - (b.l0 as u128);
    proof { lemma_split(t0); }
    let t1: u128 = 0x10000000000000000u128 + (a.l1 as u128) - (b.l1 as u128) - (1 - (t0 >> 64));
    proof { lemma_split(t1); }
    let t2: u128 = 0x10000000000000000u128 + (a.l2 as u128) - (b.l2 as u128) - (1 - (t1 >> 64));
    proof { lemma_split(t2); }
    let t3: u128 = 0x10000000000000000u128 + (a.l3 as u128) - (b.l3 as u128) - (1 - (t2 >> 64));
    proof { lemma_split(t3); }
    let r = FieldElement {
        l0: (t0 & 0xFFFF_FFFF_FFFF_FFFF) as u64,
        l1: (t1 & 0xFFFF_FFFF_FFFF_FFFF) as u64,
        l2: (t2 & 0xFFFF_FFFF_FFFF_FFFF) as u64,
        l3: (t3 & 0xFFFF_FFFF_FFFF_FFFF) as u64,
    };
    proof {
        assert(r.value() == a.value() - b.value()
            + (1 - (t3 >> 64)) * 0x10000000000000000000000000000000000000000000000000000000000000000int);
        assert((t3 >> 64) == 1);
    }
    r
}

/// One accumulation step of the output-hash scheme: `(2*h + v) mod p`.
pub fn hash_step(h: &FieldElement, v: &FieldElement) -> (r: FieldElement)
    requires
        h.wf(),
        v.wf(),
    ensures
        r.wf(),
        r.value() == (2 * h.value() + v.value()) % prime(),
{
    let ghost t: int = 2 * h.value() + v.value();
    let doubled = add_raw(h, h);
    let s = add_raw(&doubled, v);
    let pr = prime_limbs();
    let mut x = s;
    if !felt_lt(&x, &pr) {
        x = sub_raw(&x, &pr);
    }
    if !felt_lt(&x, &pr) {
        x = sub_raw(&x, &pr);
    }
    proof {
        assert(0 <= x.value() < prime());
        assert(x.value() == t || x.value() == t - prime() || x.value() == t - 2 * prime());
        if x.value() == t {
            vstd::arithmetic::div_mod::lemma_fundamental_div_mod_converse_mod(
                t, prime(), 0, x.value());
        } else if x.value() == t - prime() {
            vstd::arithmetic::div_mod::lemma_fundamental_div_mod_converse_mod(
                t, prime(), 1, x.value());
        } else {
            vstd::arithmetic::div_mod::lemma_fundamental_div_mod_converse_mod(
                t, prime(), 2, x.value());
        }
    }
    x
}

/// The output-hash accumulator over an ordered sequence of field elements:
/// a fold of `h -> (2*h + v) mod p` starting from zero, so the result
/// depends on both the values and their order.
pub open spec fn sp_chain_hash(s: Seq<FieldElement>) -> int
    decreases s.len(),
{
    if s.len() == 0 {
        0
    } else {
        (2 * sp_chain_hash(s.drop_last()) + s.last().value()) % prime()
    }
}

/// Hash an ordered sequence of field elements under the accumulator scheme.
pub fn chain_hash(vals: &Vec<FieldElement>) -> (r: FieldElement)
    requires
        forall|i: int| 0 <= i < vals@.len() ==> (#[trigger] vals@[i]).wf(),
    ensures
        r.wf(),
        r.value() == sp_chain_hash(vals@),
{
    let mut h = FieldElement::zero();
    let mut i: usize = 0;
    while i < vals.len()
        invariant
            0 <= i <= vals@.len(),
            forall|j: int| 0 <= j < vals@.len() ==> (#[trigger] vals@[j]).wf(),
            h.wf(),
            h.value() == sp_chain_hash(vals@.take(i as int)),
        decreases vals@.len() - i,
    {
        h = hash_step(&h, &vals[i]);
        proof {
            assert(vals@.take(i + 1).drop_last() =~= vals@.take(i as int));
            assert(vals@.take(i + 1).last() == vals@[i as int]);
        }
        i += 1;
    }
    proof {
        assert(vals@.take(vals@.len() as int) =~= vals@);
    }
    h
}

/// One digit of the given base; `None` when `c` is no digit of that base.
pub open spec fn sp_digit(c: char, base: int) -> Option<int> {
    let u: u32 = c as u32;
    if 0x30 <= u && u <= 0x39 {
        Some(u - 0x30)
    } else if base == 16 && 0x61 <= u && u <= 0x66 {
        Some(u - 0x61 + 10)
    } else if base == 16 && 0x41 <= u && u <= 0x46 {
        Some(u - 0x41 + 10)
    } else {
        None
    }
}

/// The value of a non-empty run of digits, most significant first;
/// `None` when the run is empty or any character is no digit.
pub open spec fn sp_digits_val(s: Seq<char>, base: int) -> Option<int>
    decreases s.len(),
{
    if s.len() == 0 {
        None
    } else if s.len() == 1 {
        sp_digit(s[0], base)
    } else {
        match (sp_digits_val(s.drop_last(), base), sp_digit(s.last(), base)) {
            (Some(v), Some(d)) => Some(v * base + d),
            _ => None,
        }
    }
}

/// The numeric reading of field-element text: `0x`-prefixed hexadecimal,
/// otherwise decimal.
pub open spec fn sp_text_val(s: Seq<char>) -> Option<int> {
    if s.len() >= 2 && s[0] == '0' && s[1] == 'x' {
        sp_digits_val(s.skip(2), 16)
    } else {
        sp_digits_val(s, 10)
    }
}

pub proof fn lemma_invalid_digit(s: Seq<char>, base: int, i: int)
    requires
        0 <= i < s.len(),
        sp_digit(s[i], base) is None,
    ensures
        sp_digits_val(s, base) is None,
    decreases s.len(),
{
    if s.len() > 1 && i < s.len() - 1 {
        lemma_invalid_digit(s.drop_last(), base, i);
    }
}

pub proof fn lemma_all_valid_some(s: Seq<char>, base: int)
    requires
        s.len() >= 1,
        forall|j: int| 0 <= j < s.len() ==> (#[trigger] sp_digit(s[j], base)) is Some,
    ensures
        sp_digits_val(s, base) is Some,
    decreases s.len(),
{
    if s.len() > 1 {
        lemma_all_valid_some(s.drop_last(), base);
    }
}

pub proof fn lemma_digits_nonneg(s: Seq<char>, base: int)
    requires
        base == 10 || base == 16,
        sp_digits_val(s, base) is Some,
    ensures
        sp_digits_val(s, base).unwrap() >= 0,
    decreases s.len(),
{
    if s.len() > 1 {
        lemma_digits_nonneg(s.drop_last(), base);
        let v: int = sp_digits_val(s.drop_last(), base).unwrap();
        assert(v * base >= 0) by (nonlinear_arith)
            requires v >= 0 && base >= 1;
    }
}

pub proof fn lemma_digits_prefix_le(s: Seq<char>, base: int, k: int)
    requires
        base == 10 || base == 16,
        1 <= k <= s.len(),
        sp_digits_val(s, base) is Some,
    ensures
        sp_digits_val(s.take(k), base) is Some,
        sp_digits_val(s.take(k), base).unwrap() <= sp_digits_val(s, base).unwrap(),
    decreases s.len(),
{
    if k == s.len() {
        assert(s.take(k) =~= s);
    } else {
        assert(s.take(k) =~= s.drop_last().take(k));
        lemma_digits_prefix_le(s.drop_last(), base, k);
        lemma_digits_nonneg(s.drop_last(), base);
        let v: int = sp_digits_val(s.drop_last(), base).unwrap();
        let d: int = sp_digit(s.last(), base).unwrap();
        assert(v * base >= v) by (nonlinear_arith)
            requires v >= 0 && base >= 1;
    }
}

/// Which error `FieldElement::parse` reports.
#[derive(Clone, Copy, Debug, PartialEq, Eq, Structural)]
pub enum FeltParseError {
    /// The text is not a non-empty run of digits of the expected base.
    InvalidFormat,
    /// The text reads as a number at or above the field prime.
    OutOfRange,
}

impl FieldElement {
    /// Parse `0x`-prefixed hexadecimal or decimal text into a field
    /// element; values at or above the field prime are rejected, never
    /// reduced.
    pub fn parse(text: &str) -> (r: Result<FieldElement, FeltParseError>)
        ensures
            match r {
                Ok(f) => f.wf() && sp_text_val(text@) == Some(f.value())
                    && f == felt_of(f.value()),
                Err(FeltParseError::OutOfRange) => sp_text_val(text@) is Some
                    && sp_text_val(text@).unwrap() >= prime(),
                Err(FeltParseError::InvalidFormat) => sp_text_val(text@) is None,
            },
    {
        let n: usize = text.unicode_len();
        let hex: bool = n >= 2 && text.get_char(0) == '0' && text.get_char(1) == 'x';
        let start: usize = if hex { 2 } else { 0 };
        let base: u64 = if hex { 16 } else { 10 };
        let ghost digits: Seq<char> = if hex { text@.skip(2) } else { text@ };
        proof {
            assert(sp_text_val(text@) == sp_digits_val(digits, base as int));
        }
        if n == start {
            return Err(FeltParseError::InvalidFormat);
        }
        let mut i: usize = start;
        while i < n
            invariant
                start <= i <= n,
                n == text@.len(),
                start == if hex { 2int } else { 0int },
                base == if hex { 16u64 } else { 10u64 },
                digits == if hex { text@.skip(2) } else { text@ },
                hex == (text@.len() >= 2 && text@[0] == '0' && text@[1] == 'x'),
                forall|j: int| 0 <= j < i - start
                    ==> (#[trigger] sp_digit(digits[j], base as int)) is Some,
            decreases n - i,
        {
            let c: char = text.get_char(i);
            proof {
                assert(digits[i - start] == text@[i as int]);
            }
            if digit_of(c, hex).is_none() {
                proof {
                    lemma_invalid_digit(digits, base as int, i - start);
                }
                return Err(FeltParseError::InvalidFormat);
            }
            i += 1;
        }
        proof {
            lemma_all_valid_some(digits, base as int);
        }
        let mut acc = FieldElement::zero();
        let mut k: usize = start;
        while k < n
            invariant
                start <= k <= n,
                n == text@.len(),
                start == if hex { 2int } else { 0int },
                base == if hex { 16u64 } else { 10u64 },
                digits == if hex { text@.skip(2) } else { text@ },
                hex == (text@.len() >= 2 && text@[0] == '0' && text@[1] == 'x'),
                n - start == digits.len(),
                forall|j: int| 0 <= j < digits.len()
                    ==> (#[trigger] sp_digit(digits[j], base as int)) is Some,
                sp_digits_val(digits, base as int) is Some,
                k > start ==> sp_digits_val(digits.take(k - start), base as int)
                    == Some(acc.value()),
                k == start ==> acc.value() == 0,
            decreases n - k,
        {
            let c: char = text.get_char(k);
            proof {
                assert(digits[k - start] == text@[k as int]);
            }
            let d: u64 = match digit_of(c, hex) {
                Some(d) => d,
                None => {
                    proof {
                        assert(sp_digit(digits[k - start], base as int) is Some);
                        assert(false);
                    }
                    return Err(FeltParseError::InvalidFormat);
                },
            };
            let next = match mul_small_add(&acc, base, d) {
                Some(f) => f,
                None => {
                    proof {
                        if k > start {
                            assert(digits.take(k - start + 1).drop_last()
                                =~= digits.take(k - start));
                            assert(digits.take(k - start + 1).last() == digits[k - start]);
                            assert(sp_digits_val(digits.take(k - start + 1), base as int)
                                == Some(acc.value() * base + d));
                            lemma_digits_prefix_le(digits, base as int, k - start + 1);
                        } else {
                            assert(acc.value() * base == 0) by (nonlinear_arith)
                                requires acc.value() == 0;
                            assert(false);
                        }
                    }
                    return Err(FeltParseError::OutOfRange);
                },
            };
            proof {
                if k > start {
                    assert(digits.take(k - start + 1).drop_last() =~= digits.take(k - start));
                    assert(digits.take(k - start + 1).last() == digits[k - start]);
                } else {
                    assert(digits.take(1).len() == 1);
                    assert(digits.take(1)[0] == digits[0]);
                }
            }
            acc = next;
            k += 1;
        }
        proof {
            assert(digits.take(n - start) =~= digits);
        }
        let pr = prime_limbs();
        if felt_lt(&acc, &pr) {
            proof {
                lemma_felt_of_val(acc.value());
                lemma_value_injective(acc, felt_of(acc.value()));
            }
            Ok(acc)
        } else {
            Err(FeltParseError::OutOfRange)
        }
    }
}

/// The character for one hexadecimal digit, lower case.
pub open spec fn sp_hex_digit(d: int) -> char {
    if d == 0 { '0' } else if d == 1 { '1' } else if d == 2 { '2' } else if d == 3 { '3' }
    else if d == 4 { '4' } else if d == 5 { '5' } else if d == 6 { '6' } else if d == 7 { '7' }
    else if d == 8 { '8' } else if d == 9 { '9' } else if d == 10 { 'a' }
    else if d == 11 { 'b' } else if d == 12 { 'c' } else if d == 13 { 'd' }
    else if d == 14 { 'e' } else { 'f' }
}

/// The hexadecimal digits of a value, most significant first, no
/// leading zeros; zero is the single digit `0`.
pub open spec fn sp_hex_digits(v: int) -> Seq<char>
    decreases v,
{
    if v < 16 {
        seq![sp_hex_digit(v)]
    } else {
        sp_hex_digits(v / 16).push(sp_hex_digit(v % 16))
    }
}

/// The canonical hexadecimal text of a value: `0x` and its digits.
pub open spec fn sp_hex_text(v: int) -> Seq<char> {
    "0x"@ + sp_hex_digits(v)
}

/// Quotient and remainder of a division by 16, over the limbs.
fn div16(f: &FieldElement) -> (r: (FieldElement, u64))
    ensures
        r.0.value() == f.value() / 16,
        r.1 == f.value() % 16,
        r.0.value() <= f.value(),
{
    let q = FieldElement {
        l0: (f.l0 >> 4) | ((f.l1 & 0xF) << 60),
        l1: (f.l1 >> 4) | ((f.l2 & 0xF) << 60),
        l2: (f.l2 >> 4) | ((f.l3 & 0xF) << 60),
        l3: f.l3 >> 4,
    };
    let rem: u64 = f.l0 & 0xF;
    proof {
        let l0 = f.l0;
        let l1 = f.l1;
        let l2 = f.l2;
        let l3 = f.l3;
        assert((l0 >> 4) | ((l1 & 0xF) << 60) == (l0 >> 4) + (l1 & 0xF) * 0x1000000000000000)
            by (bit_vector);
        assert((l1 >> 4) | ((l2 & 0xF) << 60) == (l1 >> 4) + (l2 & 0xF) * 0x1000000000000000)
            by (bit_vector);
        assert((l2 >> 4) | ((l3 & 0xF) << 60) == (l2 >> 4) + (l3 & 0xF) * 0x1000000000000000)
            by (bit_vector);
        assert(l0 == (l0 >> 4) * 16 + (l0 & 0xF) && (l0 & 0xF) < 16 && (l0 >> 4)
            <= 0x0FFF_FFFF_FFFF_FFFF) by (bit_vector);
        assert(l1 == (l1 >> 4) * 16 + (l1 & 0xF) && (l1 & 0xF) < 16 && (l1 >> 4)
            <= 0x0FFF_FFFF_FFFF_FFFF) by (bit_vector);
        assert(l2 == (l2 >> 4) * 16 + (l2 & 0xF) && (l2 & 0xF) < 16 && (l2 >> 4)
            <= 0x0FFF_FFFF_FFFF_FFFF) by (bit_vector);
        assert(l3 == (l3 >> 4) * 16 + (l3 & 0xF) && (l3 & 0xF) < 16 && (l3 >> 4)
            <= 0x0FFF_FFFF_FFFF_FFFF) by (bit_vector);
        assert(f.value() == q.value() * 16 + rem);
        vstd::arithmetic::div_mod::lemma_fundamental_div_mod_converse_mod(
            f.value(), 16, q.value(), rem as int);
        vstd::arithmetic::div_mod::lemma_fundamental_div_mod_converse_div(
            f.value(), 16, q.value(), rem as int);
    }
    (q, rem)
}

/// The ASCII byte of one hexadecimal digit, lower case.
fn hex_digit_byte(d: u64) -> (r: u8)
    requires
        d < 16,
    ensures
        r < 128,
        r as char == sp_hex_digit(d as int),
{
    if d < 10 {
        (0x30 + d) as u8
    } else {
        (0x57 + d) as u8
    }
}

/// Relies on `String::from_utf8`: bytes below `0x80` decode to the
/// characters with the same code points.
#[verifier::external_body]
fn ascii_to_string(bytes: Vec<u8>) -> (r: String)
    requires
        forall|i: int| 0 <= i < bytes@.len() ==> bytes@[i] < 128,
    ensures
        r@.len() == bytes@.len(),
        forall|i: int| 0 <= i < bytes@.len() ==> r@[i] == bytes@[i] as char,
{
    String::from_utf8(bytes).unwrap_or_default()
}

impl FieldElement {
    /// Canonical hexadecimal text: `0x`, then lower-case digits with no
    /// leading zeros (`0x0` for zero).
    pub fn to_hex(&self) -> (r: String)
        ensures
            r@ == sp_hex_text(self.value()),
    {
        let ghost v0: int = self.value();
        let mut rev_bytes: Vec<u8> = Vec::new();
        let pair = div16(self);
        let mut cur: FieldElement = pair.0;
        rev_bytes.push(hex_digit_byte(pair.1));
        while cur.l0 != 0 || cur.l1 != 0 || cur.l2 != 0 || cur.l3 != 0
            invariant
                rev_bytes@.len() >= 1,
                forall|i: int| 0 <= i < rev_bytes@.len() ==> (#[trigger] rev_bytes@[i]) < 128,
                cur.value() >= 0,
                v0 == self.value(),
                (if cur.value() > 0 {
                    sp_hex_digits(v0) == sp_hex_digits(cur.value())
                        + Seq::new(rev_bytes@.len(), |i: int|
                            rev_bytes@[rev_bytes@.len() - 1 - i] as char)
                } else {
                    sp_hex_digits(v0) == Seq::new(rev_bytes@.len(), |i: int|
                        rev_bytes@[rev_bytes@.len() - 1 - i] as char)
                }),
            decreases cur.value(),
        {
            let ghost rb0: Seq<u8> = rev_bytes@;
            let pair2 = div16(&cur);
            rev_bytes.push(hex_digit_byte(pair2.1));
            proof {
                let v: int = cur.value();
                assert(v / 16 < v) by (nonlinear_arith)
                    requires v > 0;
                assert(Seq::new(rev_bytes@.len(), |i: int|
                        rev_bytes@[rev_bytes@.len() - 1 - i] as char)
                    =~= seq![sp_hex_digit(v % 16)]
                        + Seq::new(rb0.len(), |i: int| rb0[rb0.len() - 1 - i] as char));
                if v < 16 {
                    vstd::arithmetic::div_mod::lemma_fundamental_div_mod_converse_mod(
                        v, 16, 0, v);
                    vstd::arithmetic::div_mod::lemma_fundamental_div_mod_converse_div(
                        v, 16, 0, v);
                    assert(sp_hex_digits(v) == seq![sp_hex_digit(v)]);
                    assert(seq![sp_hex_digit(v)]
                        + Seq::new(rb0.len(), |i: int| rb0[rb0.len() - 1 - i] as char)
                        =~= Seq::new(rev_bytes@.len(), |i: int|
                            rev_bytes@[rev_bytes@.len() - 1 - i] as char));
                } else {
                    assert(sp_hex_digits(v)
                        == sp_hex_digits(v / 16).push(sp_hex_digit(v % 16)));
                    assert(sp_hex_digits(v / 16)
                        + (seq![sp_hex_digit(v % 16)]
                            + Seq::new(rb0.len(), |i: int| rb0[rb0.len() - 1 - i] as char))
                        =~= (sp_hex_digits(v / 16).push(sp_hex_digit(v % 16)))
                            + Seq::new(rb0.len(), |i: int| rb0[rb0.len() - 1 - i] as char));
                }
            }
            cur = pair2.0;
        }
        let n: usize = rev_bytes.len();
        let mut bytes: Vec<u8> = Vec::new();
        let mut i: usize = 0;
        while i < n
            invariant
                0 <= i <= n,
                n == rev_bytes@.len(),
                forall|k: int| 0 <= k < rev_bytes@.len()
                    ==> (#[trigger] rev_bytes@[k]) < 128,
                bytes@.len() == i,
                forall|k: int| 0 <= k < i
                    ==> #[trigger] bytes@[k] == rev_bytes@[n - 1 - k],
            decreases n - i,
        {
            bytes.push(rev_bytes[n - 1 - i]);
            i += 1;
        }
        let tail: String = ascii_to_string(bytes);
        let mut out: String = String::from_str("0x");
        out.append(tail.as_str());
        proof {
            assert(tail@ =~= Seq::new(rev_bytes@.len(), |i: int|
                rev_bytes@[rev_bytes@.len() - 1 - i] as char));
        }
        out
    }
}

proof fn lemma_hex_digit_val(d: int)
    requires
        0 <= d < 16,
    ensures
        sp_digit(sp_hex_digit(d), 16) == Some(d),
{
}

proof fn lemma_hex_digits_val(v: int)
    requires
        v >= 0,
    ensures
        sp_digits_val(sp_hex_digits(v), 16) == Some(v),
    decreases v,
{
    if v < 16 {
        lemma_hex_digit_val(v);
    } else {
        assert(v / 16 < v && v / 16 >= 0) by (nonlinear_arith)
            requires v >= 16;
        lemma_hex_digits_val(v / 16);
        vstd::arithmetic::div_mod::lemma_mod_bound(v, 16);
        lemma_hex_digit_val(v % 16);
        vstd::arithmetic::div_mod::lemma_fundamental_div_mod(v, 16);
        let pre: Seq<char> = sp_hex_digits(v / 16);
        let s: Seq<char> = sp_hex_digits(v);
        assert(pre.len() >= 1);
        assert(s == pre.push(sp_hex_digit(v % 16)));
        assert(s.drop_last() =~= pre);
        assert(s.last() == sp_hex_digit(v % 16));
        assert(s.len() >= 2);
    }
}

/// Hexadecimal round trip: the canonical hexadecimal text of any
/// element's value reads back as that same value, so `parse` after
/// `to_hex` returns the element unchanged.
pub proof fn lemma_hex_round_trip(f: FieldElement)
    ensures
        sp_text_val(sp_hex_text(f.value())) == Some(f.value()),
{
    reveal_strlit("0x");
    let s: Seq<char> = sp_hex_text(f.value());
    lemma_hex_digits_val(f.value());
    assert(s.skip(2) =~= sp_hex_digits(f.value()));
}

/// Classify one character as a digit of the active base.
fn digit_of(c: char, hex: bool) -> (r: Option<u64>)
    ensures
        match r {
            Some(d) => sp_digit(c, if hex { 16int } else { 10int }) == Some(d as int) && d < 16,
            None => sp_digit(c, if hex { 16int } else { 10int }) is None,
        },
{
    let u: u32 = c as u32;
    if 0x30 <= u && u <= 0x39 {
        Some(((u - 0x30) as u64))
    } else if hex && 0x61 <= u && u <= 0x66 {
        Some(((u - 0x61 + 10) as u64))
    } else if hex && 0x41 <= u && u <= 0x46 {
        Some(((u - 0x41 + 10) as u64))
    } else {
        None
    }
}

} // verus!
