//! Affine points of BN254's two pairing groups, decoded from the
//! three-coordinate projective wire encoding.
//!
//! A G1 point has base-field coordinates; a G2 point has coordinates in
//! the quadratic extension Fq2 (pairs `c0 + c1·u` with `u² = −1`).  A
//! projective triple `(X, Y, Z)` denotes the identity when `Z` is zero
//! and the affine point `(X·Z⁻¹, Y·Z⁻¹)` otherwise; for G2 the inverse
//! of `Z` is computed through the norm map `|Z|² = c0² + c1²`.

use vstd::prelude::*;
use vstd::arithmetic::div_mod::{
    lemma_add_mod_noop,
    lemma_mul_mod_noop_general,
    lemma_small_mod,
    lemma_sub_mod_noop,
};
use crate::error::ContractError;
use crate::field::{
    field_numeral_val,
    fq_add,
    fq_from_chars,
    fq_inv,
    fq_inv_val,
    fq_is_zero,
    fq_modulus,
    fq_mul,
    fq_ok,
    fq_sub,
    fq_zero,
    is_field_numeral,
    lemma_fq_inv_unique,
    FqElement,
};

verus! {

/// The mathematical content of a G1 point: reduced affine coordinates,
/// or the identity.
pub ghost struct G1Model {
    pub x: int,
    pub y: int,
    pub infinity: bool,
}

/// The mathematical content of a G2 point: reduced Fq2 affine
/// coordinates `x0 + x1·u`, `y0 + y1·u`, or the identity.
pub ghost struct G2Model {
    pub x0: int,
    pub x1: int,
    pub y0: int,
    pub y1: int,
    pub infinity: bool,
}

/// An element of the quadratic extension field Fq2.
#[derive(Clone, Copy, Debug)]
pub struct Fq2Element {
    pub c0: FqElement,
    pub c1: FqElement,
}

/// A G1 point in affine form.  The identity carries zero coordinates.
#[derive(Clone, Copy, Debug)]
pub struct G1Point {
    pub x: FqElement,
    pub y: FqElement,
    pub infinity: bool,
}

/// A G2 point in affine form.  The identity carries zero coordinates.
#[derive(Clone, Copy, Debug)]
pub struct G2Point {
    pub x: Fq2Element,
    pub y: Fq2Element,
    pub infinity: bool,
}

impl View for G1Point {
    type V = G1Model;

    open spec fn view(&self) -> G1Model {
        G1Model { x: self.x@, y: self.y@, infinity: self.infinity }
    }
}

impl View for G2Point {
    type V = G2Model;

    open spec fn view(&self) -> G2Model {
        G2Model {
            x0: self.x.c0@,
            x1: self.x.c1@,
            y0: self.y.c0@,
            y1: self.y.c1@,
            infinity: self.infinity,
        }
    }
}

/// Both components are canonical residues.
pub open spec fn fq2_ok(e: Fq2Element) -> bool {
    fq_ok(e.c0) && fq_ok(e.c1)
}

/// Coordinates are canonical; the identity carries zero coordinates, as
/// the pairing backend expects.
pub open spec fn g1_ok(p: G1Point) -> bool {
    fq_ok(p.x) && fq_ok(p.y) && (p.infinity ==> p@.x == 0 && p@.y == 0)
}

/// Coordinates are canonical; the identity carries zero coordinates.
pub open spec fn g2_ok(p: G2Point) -> bool {
    fq2_ok(p.x) && fq2_ok(p.y) && (p.infinity ==> p@.x0 == 0 && p@.x1 == 0 && p@.y0 == 0 && p@.y1
        == 0)
}

/// The first component of an Fq2 product `(a0 + a1·u)(b0 + b1·u)` with
/// `u² = −1`.
pub open spec fn fq2_mul_c0(a0: int, a1: int, b0: int, b1: int) -> int {
    (a0 * b0 - a1 * b1) % fq_modulus()
}

/// The second component of an Fq2 product.
pub open spec fn fq2_mul_c1(a0: int, a1: int, b0: int, b1: int) -> int {
    (a0 * b1 + a1 * b0) % fq_modulus()
}

/// The norm of an Fq2 element, `c0² + c1²`, reduced modulo q.
pub open spec fn fq2_norm(c0: int, c1: int) -> int {
    (c0 * c0 + c1 * c1) % fq_modulus()
}

/// The G1 point denoted by a projective triple of reduced coordinates.
pub open spec fn g1_decode(xv: int, yv: int, zv: int) -> G1Model {
    if zv == 0 {
        G1Model { x: 0, y: 0, infinity: true }
    } else {
        G1Model {
            x: (xv * fq_inv_val(zv)) % fq_modulus(),
            y: (yv * fq_inv_val(zv)) % fq_modulus(),
            infinity: false,
        }
    }
}

/// The G2 point denoted by a projective triple of reduced Fq2
/// coordinates, or nothing when `Z` admits no inverse.
pub open spec fn g2_decode(x0: int, x1: int, y0: int, y1: int, z0: int, z1: int) -> Option<
    G2Model,
> {
    if z0 == 0 && z1 == 0 {
        Some(G2Model { x0: 0, x1: 0, y0: 0, y1: 0, infinity: true })
    } else if fq2_norm(z0, z1) == 0 {
        None
    } else {
        let ninv = fq_inv_val(fq2_norm(z0, z1));
        let i0 = (z0 * ninv) % fq_modulus();
        let i1 = ((0 - z1) * ninv) % fq_modulus();
        Some(
            G2Model {
                x0: fq2_mul_c0(x0, x1, i0, i1),
                x1: fq2_mul_c1(x0, x1, i0, i1),
                y0: fq2_mul_c0(y0, y1, i0, i1),
                y1: fq2_mul_c1(y0, y1, i0, i1),
                infinity: false,
            },
        )
    }
}

/// The G1 identity element.
pub fn g1_identity() -> (r: G1Point)
    ensures
        g1_ok(r),
        r@ == (G1Model { x: 0, y: 0, infinity: true }),
{
    G1Point { x: fq_zero(), y: fq_zero(), infinity: true }
}

/// Multiplies two Fq2 elements.
pub fn fq2_mul(a: &Fq2Element, b: &Fq2Element) -> (r: Fq2Element)
    requires
        fq2_ok(*a),
        fq2_ok(*b),
    ensures
        fq2_ok(r),
        r.c0@ == fq2_mul_c0(a.c0@, a.c1@, b.c0@, b.c1@),
        r.c1@ == fq2_mul_c1(a.c0@, a.c1@, b.c0@, b.c1@),
{
    let t0 = fq_mul(&a.c0, &b.c0);
    let t1 = fq_mul(&a.c1, &b.c1);
    let c0 = fq_sub(&t0, &t1);
    let u0 = fq_mul(&a.c0, &b.c1);
    let u1 = fq_mul(&a.c1, &b.c0);
    let c1 = fq_add(&u0, &u1);
    proof {
        let q = fq_modulus();
        lemma_sub_mod_noop(a.c0@ * b.c0@, a.c1@ * b.c1@, q);
        lemma_add_mod_noop(a.c0@ * b.c1@, a.c1@ * b.c0@, q);
    }
    Fq2Element { c0, c1 }
}

/// Inverts a non-zero Fq2 element through the norm map: the inverse of
/// `z` is its conjugate divided by `|z|²`.  Returns nothing when the
/// norm has no inverse, which cannot arise over the prime field but must
/// still be well defined behaviour.
pub fn fq2_inverse(z: &Fq2Element) -> (r: Option<Fq2Element>)
    requires
        fq2_ok(*z),
        !(z.c0@ == 0 && z.c1@ == 0),
    ensures
        fq2_norm(z.c0@, z.c1@) == 0 <==> r is None,
        r matches Some(i) ==> {
            &&& fq2_ok(i)
            &&& i.c0@ == (z.c0@ * fq_inv_val(fq2_norm(z.c0@, z.c1@))) % fq_modulus()
            &&& i.c1@ == ((0 - z.c1@) * fq_inv_val(fq2_norm(z.c0@, z.c1@))) % fq_modulus()
        },
{
    let n = fq_add(&fq_mul(&z.c0, &z.c0), &fq_mul(&z.c1, &z.c1));
    proof {
        let q = fq_modulus();
        lemma_add_mod_noop(z.c0@ * z.c0@, z.c1@ * z.c1@, q);
        assert(n@ == fq2_norm(z.c0@, z.c1@));
    }
    if fq_is_zero(&n) {
        return None;
    }
    let ninv = fq_inv(&n);
    proof {
        lemma_fq_inv_unique(n@, ninv@);
    }
    let neg_c1 = fq_sub(&fq_zero(), &z.c1);
    let i0 = fq_mul(&z.c0, &ninv);
    let i1 = fq_mul(&neg_c1, &ninv);
    proof {
        let q = fq_modulus();
        lemma_mul_mod_noop_general(0 - z.c1@, ninv@, q);
    }
    Some(Fq2Element { c0: i0, c1: i1 })
}

/// Decodes a G1 point from the three coordinate strings of its
/// projective wire encoding.
///
/// Every coordinate is parsed as a field numeral and reduced modulo q.
/// A zero `Z` yields the identity regardless of `X` and `Y`; otherwise
/// the affine point is `(X·Z⁻¹, Y·Z⁻¹)`.
pub fn parse_g1_point(xs: &Vec<char>, ys: &Vec<char>, zs: &Vec<char>) -> (r: Result<
    G1Point,
    ContractError,
>)
    ensures
        r is Ok <==> is_field_numeral(xs@) && is_field_numeral(ys@) && is_field_numeral(zs@),
        r matches Ok(p) ==> {
            &&& g1_ok(p)
            &&& p@ == g1_decode(
                field_numeral_val(xs@) % fq_modulus(),
                field_numeral_val(ys@) % fq_modulus(),
                field_numeral_val(zs@) % fq_modulus(),
            )
        },
        r is Err ==> r == Err::<G1Point, ContractError>(ContractError::MalformedFieldElement {}),
{
    let x = match fq_from_chars(xs) {
        Ok(v) => v,
        Err(e) => {
            return Err(e);
        },
    };
    let y = match fq_from_chars(ys) {
        Ok(v) => v,
        Err(e) => {
            return Err(e);
        },
    };
    let z = match fq_from_chars(zs) {
        Ok(v) => v,
        Err(e) => {
            return Err(e);
        },
    };
    if fq_is_zero(&z) {
        return Ok(g1_identity());
    }
    let zinv = fq_inv(&z);
    proof {
        lemma_fq_inv_unique(z@, zinv@);
    }
    let ax = fq_mul(&x, &zinv);
    let ay = fq_mul(&y, &zinv);
    Ok(G1Point { x: ax, y: ay, infinity: false })
}

/// Decodes a G2 point from the six coordinate strings of its projective
/// wire encoding: three Fq2 coordinates given as `(c0, c1)` pairs.
///
/// When both components of `Z` are zero the result is the identity;
/// otherwise `X` and `Y` are divided by `Z` in the extension field.
pub fn parse_g2_point(
    x0s: &Vec<char>,
    x1s: &Vec<char>,
    y0s: &Vec<char>,
    y1s: &Vec<char>,
    z0s: &Vec<char>,
    z1s: &Vec<char>,
) -> (r: Result<G2Point, ContractError>)
    ensures
        ({
            let parses = is_field_numeral(x0s@) && is_field_numeral(x1s@) && is_field_numeral(y0s@)
                && is_field_numeral(y1s@) && is_field_numeral(z0s@) && is_field_numeral(z1s@);
            let m = g2_decode(
                field_numeral_val(x0s@) % fq_modulus(),
                field_numeral_val(x1s@) % fq_modulus(),
                field_numeral_val(y0s@) % fq_modulus(),
                field_numeral_val(y1s@) % fq_modulus(),
                field_numeral_val(z0s@) % fq_modulus(),
                field_numeral_val(z1s@) % fq_modulus(),
            );
            &&& (r is Ok <==> parses && m is Some)
            &&& (r matches Ok(p) ==> g2_ok(p) && Some(p@) == m)
            &&& (!parses ==> r == Err::<G2Point, ContractError>(
                ContractError::MalformedFieldElement {},
            ))
            &&& (parses && m is None ==> r == Err::<G2Point, ContractError>(
                ContractError::NonInvertibleCoordinate {},
            ))
        }),
{
    let x0 = match fq_from_chars(x0s) {
        Ok(v) => v,
        Err(e) => {
            return Err(e);
        },
    };
    let x1 = match fq_from_chars(x1s) {
        Ok(v) => v,
        Err(e) => {
            return Err(e);
        },
    };
    let y0 = match fq_from_chars(y0s) {
        Ok(v) => v,
        Err(e) => {
            return Err(e);
        },
    };
    let y1 = match fq_from_chars(y1s) {
        Ok(v) => v,
        Err(e) => {
            return Err(e);
        },
    };
    let z0 = match fq_from_chars(z0s) {
        Ok(v) => v,
        Err(e) => {
            return Err(e);
        },
    };
    let z1 = match fq_from_chars(z1s) {
        Ok(v) => v,
        Err(e) => {
            return Err(e);
        },
    };
    if fq_is_zero(&z0) && fq_is_zero(&z1) {
        let zero2 = Fq2Element { c0: fq_zero(), c1: fq_zero() };
        return Ok(G2Point { x: zero2, y: zero2, infinity: true });
    }
    let z = Fq2Element { c0: z0, c1: z1 };
    let zinv = match fq2_inverse(&z) {
        Some(i) => i,
        None => {
            return Err(ContractError::NonInvertibleCoordinate {});
        },
    };
    let ax = fq2_mul(&Fq2Element { c0: x0, c1: x1 }, &zinv);
    let ay = fq2_mul(&Fq2Element { c0: y0, c1: y1 }, &zinv);
    Ok(G2Point { x: ax, y: ay, infinity: false })
}

/// A projective triple with zero `Z` always decodes to the identity,
/// whatever `X` and `Y` hold.
pub proof fn lemma_g1_zero_z_is_identity(xv: int, yv: int)
    ensures
        g1_decode(xv, yv, 0) == (G1Model { x: 0, y: 0, infinity: true }),
{
}

/// A projective triple with `Z = 1` decodes to its own `(X, Y)`,
/// unchanged: encoding an affine point projectively with unit `Z` and
/// decoding it round-trips.
pub proof fn lemma_g1_unit_z_round_trip(xv: int, yv: int)
    requires
        0 <= xv < fq_modulus(),
        0 <= yv < fq_modulus(),
    ensures
        g1_decode(xv, yv, 1) == (G1Model { x: xv, y: yv, infinity: false }),
{
    let q = fq_modulus();
    lemma_small_mod(1nat, q as nat);
    assert((1int * 1int) % q == 1);
    lemma_fq_inv_unique(1, 1);
    assert(fq_inv_val(1) == 1);
    lemma_small_mod(xv as nat, q as nat);
    lemma_small_mod(yv as nat, q as nat);
}

} // verus!
