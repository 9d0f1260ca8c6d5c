//! Field elements of the BN254 curve.
//!
//! A base-field (`Fq`) or scalar-field (`Fr`) element is held as four
//! little-endian 64-bit limbs whose integer value is always the canonical
//! residue, below the field's prime.  Arithmetic is delegated to the
//! `ark_bn254` field implementation behind trusted wrappers whose
//! contracts state the exact modular result; everything built on top of
//! them — numeral parsing, inversion laws — is verified.

use vstd::prelude::*;
use vstd::arithmetic::div_mod::{
    lemma_add_mod_noop,
    lemma_mul_mod_noop_general,
    lemma_small_mod,
};
use vstd::arithmetic::mul::{lemma_mul_is_associative, lemma_mul_is_commutative};
use ark_ff::Field;
use ark_ff::PrimeField;
use crate::error::ContractError;
use crate::numeral::{
    all_dec_digits,
    all_hex_digits,
    dec_digit_val,
    dec_val,
    hex_digit_val,
    hex_val,
    is_dec_digit,
    is_hex_digit,
    lemma_dec_leading_zeros,
    lemma_dec_val_nonneg,
    lemma_hex_leading_zeros,
    lemma_hex_val_nonneg,
};
use crate::text::to_chars;

verus! {

/// The prime order of the BN254 base field, over which point
/// coordinates live.
pub open spec fn fq_modulus() -> int {
    21888242871839275222246405745257275088696311157297823662689037894645226208583int
}

/// The prime order of the BN254 scalar field, over which public inputs
/// live.
pub open spec fn fr_modulus() -> int {
    21888242871839275222246405745257275088548364400416034343698204186575808495617int
}

/// The integer denoted by four little-endian 64-bit limbs.
pub open spec fn limbs_val(l: [u64; 4]) -> int {
    (l[0] as int) + (l[1] as int) * 0x10000000000000000int + (l[2] as int)
        * 0x100000000000000000000000000000000int + (l[3] as int)
        * 0x1000000000000000000000000000000000000000000000000int
}

/// An element of the BN254 base field, stored as its canonical residue.
#[derive(Clone, Copy, Debug)]
pub struct FqElement {
    pub limbs: [u64; 4],
}

/// An element of the BN254 scalar field, stored as its canonical
/// residue.  Kept as a distinct type so base-field and scalar-field
/// values cannot be conflated.
#[derive(Clone, Copy, Debug)]
pub struct FrElement {
    pub limbs: [u64; 4],
}

impl View for FqElement {
    type V = int;

    open spec fn view(&self) -> int {
        limbs_val(self.limbs)
    }
}

impl View for FrElement {
    type V = int;

    open spec fn view(&self) -> int {
        limbs_val(self.limbs)
    }
}

/// The stored residue is canonical: non-negative and below q.
pub open spec fn fq_ok(x: FqElement) -> bool {
    0 <= x@ < fq_modulus()
}

/// The stored residue is canonical: non-negative and below r.
pub open spec fn fr_ok(x: FrElement) -> bool {
    0 <= x@ < fr_modulus()
}

/// The base-field zero.
pub fn fq_zero() -> (r: FqElement)
    ensures
        r@ == 0,
        fq_ok(r),
{
    FqElement { limbs: [0, 0, 0, 0] }
}

/// A base-field element from a small non-negative integer.
pub fn fq_small(d: u64) -> (r: FqElement)
    ensures
        r@ == d,
        fq_ok(r),
{
    FqElement { limbs: [d, 0, 0, 0] }
}

/// The scalar-field zero.
pub fn fr_zero() -> (r: FrElement)
    ensures
        r@ == 0,
        fr_ok(r),
{
    FrElement { limbs: [0, 0, 0, 0] }
}

/// A scalar-field element from a small non-negative integer.
pub fn fr_small(d: u64) -> (r: FrElement)
    ensures
        r@ == d,
        fr_ok(r),
{
    FrElement { limbs: [d, 0, 0, 0] }
}

/// Reports whether a base-field element is zero.
pub fn fq_is_zero(x: &FqElement) -> (r: bool)
    ensures
        r == (x@ == 0),
{
    x.limbs[0] == 0 && x.limbs[1] == 0 && x.limbs[2] == 0 && x.limbs[3] == 0
}

/// Relies on `ark_bn254::Fq` addition: the sum of two canonical
/// residues, reduced modulo q.
#[verifier::external_body]
pub fn fq_add(a: &FqElement, b: &FqElement) -> (r: FqElement)
    requires
        fq_ok(*a),
        fq_ok(*b),
    ensures
        r@ == (a@ + b@) % fq_modulus(),
        fq_ok(r),
{
    let x = ark_bn254::Fq::from_bigint(ark_ff::BigInt(a.limbs)).unwrap();
    let y = ark_bn254::Fq::from_bigint(ark_ff::BigInt(b.limbs)).unwrap();
    FqElement { limbs: (x + y).into_bigint().0 }
}

/// Relies on `ark_bn254::Fq` subtraction: the difference of two
/// canonical residues, reduced modulo q.
#[verifier::external_body]
pub fn fq_sub(a: &FqElement, b: &FqElement) -> (r: FqElement)
    requires
        fq_ok(*a),
        fq_ok(*b),
    ensures
        r@ == (a@ - b@) % fq_modulus(),
        fq_ok(r),
{
    let x = ark_bn254::Fq::from_bigint(ark_ff::BigInt(a.limbs)).unwrap();
    let y = ark_bn254::Fq::from_bigint(ark_ff::BigInt(b.limbs)).unwrap();
    FqElement { limbs: (x - y).into_bigint().0 }
}

/// Relies on `ark_bn254::Fq` multiplication: the product of two
/// canonical residues, reduced modulo q.
#[verifier::external_body]
pub fn fq_mul(a: &FqElement, b: &FqElement) -> (r: FqElement)
    requires
        fq_ok(*a),
        fq_ok(*b),
    ensures
        r@ == (a@ * b@) % fq_modulus(),
        fq_ok(r),
{
    let x = ark_bn254::Fq::from_bigint(ark_ff::BigInt(a.limbs)).unwrap();
    let y = ark_bn254::Fq::from_bigint(ark_ff::BigInt(b.limbs)).unwrap();
    FqElement { limbs: (x * y).into_bigint().0 }
}

/// Relies on `ark_bn254::Fq::inverse`: for a non-zero canonical residue
/// it returns the multiplicative inverse modulo q.
#[verifier::external_body]
pub fn fq_inv(a: &FqElement) -> (r: FqElement)
    requires
        fq_ok(*a),
        a@ != 0,
    ensures
        fq_ok(r),
        (a@ * r@) % fq_modulus() == 1,
{
    let x = ark_bn254::Fq::from_bigint(ark_ff::BigInt(a.limbs)).unwrap();
    FqElement { limbs: x.inverse().unwrap().into_bigint().0 }
}

/// Relies on `ark_bn254::Fr` addition: the sum of two canonical
/// residues, reduced modulo r.
#[verifier::external_body]
pub fn fr_add(a: &FrElement, b: &FrElement) -> (r: FrElement)
    requires
        fr_ok(*a),
        fr_ok(*b),
    ensures
        r@ == (a@ + b@) % fr_modulus(),
        fr_ok(r),
{
    let x = ark_bn254::Fr::from_bigint(ark_ff::BigInt(a.limbs)).unwrap();
    let y = ark_bn254::Fr::from_bigint(ark_ff::BigInt(b.limbs)).unwrap();
    FrElement { limbs: (x + y).into_bigint().0 }
}

/// Relies on `ark_bn254::Fr` multiplication: the product of two
/// canonical residues, reduced modulo r.
#[verifier::external_body]
pub fn fr_mul(a: &FrElement, b: &FrElement) -> (r: FrElement)
    requires
        fr_ok(*a),
        fr_ok(*b),
    ensures
        r@ == (a@ * b@) % fr_modulus(),
        fr_ok(r),
{
    let x = ark_bn254::Fr::from_bigint(ark_ff::BigInt(a.limbs)).unwrap();
    let y = ark_bn254::Fr::from_bigint(ark_ff::BigInt(b.limbs)).unwrap();
    FrElement { limbs: (x * y).into_bigint().0 }
}

/// The multiplicative inverse of `z` modulo q, as a value in `[0, q)`.
pub open spec fn fq_inv_val(z: int) -> int {
    choose|w: int| 0 <= w < fq_modulus() && #[trigger] ((z * w) % fq_modulus()) == 1
}

/// Inverses modulo the prime q are unique, so any witness determines
/// `fq_inv_val`.
pub proof fn lemma_fq_inv_unique(z: int, w: int)
    requires
        0 <= w < fq_modulus(),
        (z * w) % fq_modulus() == 1,
    ensures
        fq_inv_val(z) == w,
{
    let q = fq_modulus();
    assert(exists|u: int| 0 <= u < fq_modulus() && #[trigger] ((z * u) % fq_modulus()) == 1);
    let w2 = fq_inv_val(z);
    assert(0 <= w2 < q && (z * w2) % q == 1);
    // w == (w * (z * w2)) % q == ((w * z) * w2) % q == w2
    lemma_mul_mod_noop_general(w, z * w2, q);
    assert((w * ((z * w2) % q)) % q == (w * (z * w2)) % q);
    assert((w * 1) % q == (w * (z * w2)) % q);
    lemma_small_mod(w as nat, q as nat);
    lemma_mul_is_associative(w, z, w2);
    assert(w * (z * w2) == (w * z) * w2);
    lemma_mul_mod_noop_general(w * z, w2, q);
    assert((((w * z) % q) * w2) % q == ((w * z) * w2) % q);
    lemma_mul_is_commutative(w, z);
    assert((w * z) % q == 1);
    assert((1 * w2) % q == ((w * z) * w2) % q);
    lemma_small_mod(w2 as nat, q as nat);
}

/// A string matching `^0x[0-9a-fA-F]+$`: the hexadecimal form of a
/// field numeral.
pub open spec fn is_hex_numeral(s: Seq<char>) -> bool {
    s.len() > 2 && s[0] == '0' && s[1] == 'x' && all_hex_digits(s.subrange(2, s.len() as int))
}

/// A non-empty string of decimal digits: the decimal form of a field
/// numeral.
pub open spec fn is_dec_numeral(s: Seq<char>) -> bool {
    s.len() > 0 && all_dec_digits(s)
}

/// A string accepted by the field-element codec.
pub open spec fn is_field_numeral(s: Seq<char>) -> bool {
    is_hex_numeral(s) || is_dec_numeral(s)
}

/// The unreduced integer a field numeral denotes.
pub open spec fn field_numeral_val(s: Seq<char>) -> int {
    if is_hex_numeral(s) {
        hex_val(s.subrange(2, s.len() as int))
    } else {
        dec_val(s)
    }
}

/// A hexadecimal numeral is never also a decimal one: its second
/// character is `x`.
proof fn lemma_numeral_forms_disjoint(s: Seq<char>)
    ensures
        !(is_hex_numeral(s) && is_dec_numeral(s)),
{
    if is_hex_numeral(s) && is_dec_numeral(s) {
        assert(is_dec_digit(s[1]));
        assert(s[1] == 'x');
    }
}

/// The numeric value of one decimal digit character.
fn dec_digit_of(c: char) -> (d: u64)
    requires
        is_dec_digit(c),
    ensures
        d == dec_digit_val(c),
        d <= 9,
{
    (c as u32 as u64) - ('0' as u32 as u64)
}

/// The numeric value of one hexadecimal digit character.
fn hex_digit_of(c: char) -> (d: u64)
    requires
        is_hex_digit(c),
    ensures
        d == hex_digit_val(c),
        d <= 15,
{
    if '0' <= c && c <= '9' {
        (c as u32 as u64) - ('0' as u32 as u64)
    } else if 'a' <= c && c <= 'f' {
        (c as u32 as u64) - ('a' as u32 as u64) + 10
    } else {
        (c as u32 as u64) - ('A' as u32 as u64) + 10
    }
}

/// One Horner step: `acc * base + d`, carried out modulo q.
fn fq_step(acc: &FqElement, base: &FqElement, d: u64, Ghost(h): Ghost<int>) -> (r: FqElement)
    requires
        fq_ok(*acc),
        fq_ok(*base),
        d < 16,
        2 <= base@ <= 16,
        h >= 0,
        acc@ == h % fq_modulus(),
    ensures
        fq_ok(r),
        r@ == (h * base@ + d) % fq_modulus(),
{
    let t = fq_mul(acc, base);
    let r = fq_add(&t, &fq_small(d));
    proof {
        let q = fq_modulus();
        lemma_mul_mod_noop_general(h, base@, q);
        lemma_small_mod(d as nat, q as nat);
        lemma_add_mod_noop(h * base@, d as int, q);
    }
    r
}

/// One Horner step: `acc * base + d`, carried out modulo r.
fn fr_step(acc: &FrElement, base: &FrElement, d: u64, Ghost(h): Ghost<int>) -> (r: FrElement)
    requires
        fr_ok(*acc),
        fr_ok(*base),
        d < 16,
        2 <= base@ <= 16,
        h >= 0,
        acc@ == h % fr_modulus(),
    ensures
        fr_ok(r),
        r@ == (h * base@ + d) % fr_modulus(),
{
    let t = fr_mul(acc, base);
    let r = fr_add(&t, &fr_small(d));
    proof {
        let q = fr_modulus();
        lemma_mul_mod_noop_general(h, base@, q);
        lemma_small_mod(d as nat, q as nat);
        lemma_add_mod_noop(h * base@, d as int, q);
    }
    r
}

/// Parses a field numeral into its base-field residue.
///
/// Accepts `^0x[0-9a-fA-F]+$` or a non-empty decimal digit string and
/// reduces the denoted integer modulo q; anything else is rejected as a
/// malformed field element.
pub fn fq_from_chars(v: &Vec<char>) -> (r: Result<FqElement, ContractError>)
    ensures
        r is Ok <==> is_field_numeral(v@),
        r matches Ok(f) ==> fq_ok(f) && f@ == field_numeral_val(v@) % fq_modulus(),
        r is Err ==> r == Err::<FqElement, ContractError>(ContractError::MalformedFieldElement {}),
{
    let n = v.len();
    if n >= 2 && v[0] == '0' && v[1] == 'x' {
        if n == 2 {
            return Err(ContractError::MalformedFieldElement {});
        }
        let mut acc = fq_zero();
        let base = fq_small(16);
        let mut i: usize = 2;
        while i < n
            invariant
                2 <= i <= n,
                n == v@.len(),
                v@[0] == '0',
                v@[1] == 'x',
                forall|k: int| 2 <= k < i ==> is_hex_digit(#[trigger] v@[k]),
                fq_ok(acc),
                fq_ok(base),
                base@ == 16,
                acc@ == hex_val(v@.subrange(2, i as int)) % fq_modulus(),
            decreases n - i,
        {
            let c = v[i];
            if !(('0' <= c && c <= '9') || ('a' <= c && c <= 'f') || ('A' <= c && c <= 'F')) {
                proof {
                    assert(v@.subrange(2, n as int)[i - 2] == v@[i as int]);
                    assert(!is_hex_numeral(v@));
                    assert(!is_dec_digit(v@[1]));
                    assert(!is_dec_numeral(v@));
                }
                return Err(ContractError::MalformedFieldElement {});
            }
            let d = hex_digit_of(c);
            let ghost h = hex_val(v@.subrange(2, i as int));
            proof {
                assert(all_hex_digits(v@.subrange(2, i as int)));
                lemma_hex_val_nonneg(v@.subrange(2, i as int));
                assert(v@.subrange(2, i + 1).drop_last() =~= v@.subrange(2, i as int));
                assert(v@.subrange(2, i + 1).last() == v@[i as int]);
            }
            acc = fq_step(&acc, &base, d, Ghost(h));
            i = i + 1;
        }
        proof {
            assert(v@.subrange(2, n as int) =~= v@.subrange(2, i as int));
            assert(is_hex_numeral(v@));
        }
        Ok(acc)
    } else {
        if n == 0 {
            return Err(ContractError::MalformedFieldElement {});
        }
        let mut acc = fq_zero();
        let base = fq_small(10);
        let mut i: usize = 0;
        while i < n
            invariant
                i <= n,
                n == v@.len(),
                forall|k: int| 0 <= k < i ==> is_dec_digit(#[trigger] v@[k]),
                fq_ok(acc),
                fq_ok(base),
                base@ == 10,
                acc@ == dec_val(v@.subrange(0, i as int)) % fq_modulus(),
                !is_hex_numeral(v@),
            decreases n - i,
        {
            let c = v[i];
            if !('0' <= c && c <= '9') {
                proof {
                    assert(!is_dec_numeral(v@));
                }
                return Err(ContractError::MalformedFieldElement {});
            }
            let d = dec_digit_of(c);
            let ghost h = dec_val(v@.subrange(0, i as int));
            proof {
                assert(all_dec_digits(v@.subrange(0, i as int)));
                lemma_dec_val_nonneg(v@.subrange(0, i as int));
                assert(v@.subrange(0, i + 1).drop_last() =~= v@.subrange(0, i as int));
                assert(v@.subrange(0, i + 1).last() == v@[i as int]);
            }
            acc = fq_step(&acc, &base, d, Ghost(h));
            i = i + 1;
        }
        proof {
            assert(v@.subrange(0, n as int) =~= v@);
            assert(is_dec_numeral(v@));
        }
        Ok(acc)
    }
}

/// Parses a field numeral into its scalar-field residue.
pub fn fr_from_chars(v: &Vec<char>) -> (r: Result<FrElement, ContractError>)
    ensures
        r is Ok <==> is_field_numeral(v@),
        r matches Ok(f) ==> fr_ok(f) && f@ == field_numeral_val(v@) % fr_modulus(),
        r is Err ==> r == Err::<FrElement, ContractError>(ContractError::MalformedFieldElement {}),
{
    let n = v.len();
    if n >= 2 && v[0] == '0' && v[1] == 'x' {
        if n == 2 {
            return Err(ContractError::MalformedFieldElement {});
        }
        let mut acc = fr_zero();
        let base = fr_small(16);
        let mut i: usize = 2;
        while i < n
            invariant
                2 <= i <= n,
                n == v@.len(),
                v@[0] == '0',
                v@[1] == 'x',
                forall|k: int| 2 <= k < i ==> is_hex_digit(#[trigger] v@[k]),
                fr_ok(acc),
                fr_ok(base),
                base@ == 16,
                acc@ == hex_val(v@.subrange(2, i as int)) % fr_modulus(),
            decreases n - i,
        {
            let c = v[i];
            if !(('0' <= c && c <= '9') || ('a' <= c && c <= 'f') || ('A' <= c && c <= 'F')) {
                proof {
                    assert(v@.subrange(2, n as int)[i - 2] == v@[i as int]);
                    assert(!is_hex_numeral(v@));
                    assert(!is_dec_digit(v@[1]));
                    assert(!is_dec_numeral(v@));
                }
                return Err(ContractError::MalformedFieldElement {});
            }
            let d = hex_digit_of(c);
            let ghost h = hex_val(v@.subrange(2, i as int));
            proof {
                assert(all_hex_digits(v@.subrange(2, i as int)));
                lemma_hex_val_nonneg(v@.subrange(2, i as int));
                assert(v@.subrange(2, i + 1).drop_last() =~= v@.subrange(2, i as int));
                assert(v@.subrange(2, i + 1).last() == v@[i as int]);
            }
            acc = fr_step(&acc, &base, d, Ghost(h));
            i = i + 1;
        }
        proof {
            assert(v@.subrange(2, n as int) =~= v@.subrange(2, i as int));
            assert(is_hex_numeral(v@));
        }
        Ok(acc)
    } else {
        if n == 0 {
            return Err(ContractError::MalformedFieldElement {});
        }
        let mut acc = fr_zero();
        let base = fr_small(10);
        let mut i: usize = 0;
        while i < n
            invariant
                i <= n,
                n == v@.len(),
                forall|k: int| 0 <= k < i ==> is_dec_digit(#[trigger] v@[k]),
                fr_ok(acc),
                fr_ok(base),
                base@ == 10,
                acc@ == dec_val(v@.subrange(0, i as int)) % fr_modulus(),
                !is_hex_numeral(v@),
            decreases n - i,
        {
            let c = v[i];
            if !('0' <= c && c <= '9') {
                proof {
                    assert(!is_dec_numeral(v@));
                }
                return Err(ContractError::MalformedFieldElement {});
            }
            let d = dec_digit_of(c);
            let ghost h = dec_val(v@.subrange(0, i as int));
            proof {
                assert(all_dec_digits(v@.subrange(0, i as int)));
                lemma_dec_val_nonneg(v@.subrange(0, i as int));
                assert(v@.subrange(0, i + 1).drop_last() =~= v@.subrange(0, i as int));
                assert(v@.subrange(0, i + 1).last() == v@[i as int]);
            }
            acc = fr_step(&acc, &base, d, Ghost(h));
            i = i + 1;
        }
        proof {
            assert(v@.subrange(0, n as int) =~= v@);
            assert(is_dec_numeral(v@));
        }
        Ok(acc)
    }
}

/// Parses a scalar-field element from its string form.  Decimal and
/// hexadecimal values above the field order are reduced, never rejected.
pub fn parse_field_element(s: &str) -> (r: Result<FrElement, ContractError>)
    ensures
        r is Ok <==> is_field_numeral(s@),
        r matches Ok(f) ==> fr_ok(f) && f@ == field_numeral_val(s@) % fr_modulus(),
        r is Err ==> r == Err::<FrElement, ContractError>(ContractError::MalformedFieldElement {}),
{
    let v = to_chars(s);
    fr_from_chars(&v)
}

/// Parses a base-field element from its string form.
pub fn parse_fq_element(s: &str) -> (r: Result<FqElement, ContractError>)
    ensures
        r is Ok <==> is_field_numeral(s@),
        r matches Ok(f) ==> fq_ok(f) && f@ == field_numeral_val(s@) % fq_modulus(),
        r is Err ==> r == Err::<FqElement, ContractError>(ContractError::MalformedFieldElement {}),
{
    let v = to_chars(s);
    fq_from_chars(&v)
}

/// Leading zeros never change the value of a decimal field numeral:
/// prepending zeros to a decimal numeral leaves both its acceptance and
/// its denoted value intact.
pub proof fn lemma_field_numeral_zeros_dec(z: Seq<char>, s: Seq<char>)
    requires
        forall|i: int| 0 <= i < z.len() ==> #[trigger] z[i] == '0',
        is_dec_numeral(s),
    ensures
        is_field_numeral(z + s),
        field_numeral_val(z + s) == field_numeral_val(s),
{
    let t = z + s;
    assert forall|i: int| 0 <= i < t.len() implies is_dec_digit(#[trigger] t[i]) by {
        if i < z.len() {
            assert(t[i] == '0');
        } else {
            assert(t[i] == s[i - z.len()]);
        }
    }
    assert(is_dec_numeral(t));
    if t.len() > 2 {
        assert(is_dec_digit(t[1]));
        assert(!is_hex_numeral(t));
    }
    lemma_numeral_forms_disjoint(t);
    lemma_numeral_forms_disjoint(s);
    lemma_dec_leading_zeros(z, s);
}

/// Leading zeros never change the value of a hexadecimal field numeral:
/// `0x` followed by zeros and then the digits of `h` denotes the same
/// value as `0x` followed by `h` alone.
pub proof fn lemma_field_numeral_zeros_hex(z: Seq<char>, h: Seq<char>)
    requires
        forall|i: int| 0 <= i < z.len() ==> #[trigger] z[i] == '0',
        h.len() > 0,
        all_hex_digits(h),
    ensures
        is_field_numeral(seq!['0', 'x'] + z + h),
        is_field_numeral(seq!['0', 'x'] + h),
        field_numeral_val(seq!['0', 'x'] + z + h) == field_numeral_val(seq!['0', 'x'] + h),
{
    let s1 = seq!['0', 'x'] + z + h;
    let s2 = seq!['0', 'x'] + h;
    assert(s1.subrange(2, s1.len() as int) =~= z + h);
    assert(s2.subrange(2, s2.len() as int) =~= h);
    assert forall|i: int| 0 <= i < (z + h).len() implies is_hex_digit(#[trigger] (z + h)[i]) by {
        if i < z.len() {
            assert((z + h)[i] == '0');
        } else {
            assert((z + h)[i] == h[i - z.len()]);
        }
    }
    assert(is_hex_numeral(s1));
    assert(is_hex_numeral(s2));
    lemma_hex_leading_zeros(z, h);
}

} // verus!
