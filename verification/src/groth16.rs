//! The Groth16 verifier over BN254: verification-key and proof types,
//! their wire-format parsers, and the pairing check.
//!
//! The verification equation `e(A, B) = e(α, β) · e(vk_x, γ) · e(C, δ)`
//! is assembled here: the fold of the public inputs into `vk_x` is
//! verified code over trusted scalar-multiplication and addition
//! primitives, and the pairing comparison itself is one trusted call
//! into the `ark_bn254` pairing.  Each primitive's outcome is a
//! deterministic function of its points, named so every contract can
//! speak of it.

use vstd::prelude::*;
use ark_bn254::{Bn254, Fq, Fq2, G1Affine, G2Affine};
use ark_ec::pairing::Pairing;
use ark_ec::AffineRepr;
use ark_ec::CurveGroup;
use ark_ff::BigInt;
use ark_ff::One;
use ark_ff::PrimeField;
use crate::curve::{
    g1_decode,
    g1_ok,
    g2_decode,
    g2_ok,
    parse_g1_point,
    parse_g2_point,
    Fq2Element,
    G1Model,
    G1Point,
    G2Model,
    G2Point,
};
use crate::error::ContractError;
use crate::field::{
    field_numeral_val,
    fq_modulus,
    fr_from_chars,
    fr_modulus,
    fr_ok,
    is_field_numeral,
    FqElement,
    FrElement,
};
use crate::text::to_chars;
use crate::wire::{
    json_document_ok,
    object_get_span,
    parse_string_array,
    parse_string_matrix,
    span_of_key,
    spec_document_ok,
    ssa,
    ssm,
};

verus! {

/// The mathematical content of a verifying key.
pub ghost struct VerifyingKeyModel {
    pub alpha_g1: G1Model,
    pub beta_g2: G2Model,
    pub gamma_g2: G2Model,
    pub delta_g2: G2Model,
    pub gamma_abc_g1: Seq<G1Model>,
}

/// The mathematical content of a proof.
pub ghost struct ProofModel {
    pub a: G1Model,
    pub b: G2Model,
    pub c: G1Model,
}

/// The five Groth16 verifying-key components: α in G1, β, γ and δ in
/// G2, and the IC vector of G1 points, one per public input plus one.
pub struct VerifyingKey {
    pub alpha_g1: G1Point,
    pub beta_g2: G2Point,
    pub gamma_g2: G2Point,
    pub delta_g2: G2Point,
    pub gamma_abc_g1: Vec<G1Point>,
}

/// The three proof elements: A in G1, B in G2, C in G1.
pub struct Groth16Proof {
    pub a: G1Point,
    pub b: G2Point,
    pub c: G1Point,
}

impl View for VerifyingKey {
    type V = VerifyingKeyModel;

    open spec fn view(&self) -> VerifyingKeyModel {
        VerifyingKeyModel {
            alpha_g1: self.alpha_g1@,
            beta_g2: self.beta_g2@,
            gamma_g2: self.gamma_g2@,
            delta_g2: self.delta_g2@,
            gamma_abc_g1: self.gamma_abc_g1@.map_values(|p: G1Point| p@),
        }
    }
}

impl View for Groth16Proof {
    type V = ProofModel;

    open spec fn view(&self) -> ProofModel {
        ProofModel { a: self.a@, b: self.b@, c: self.c@ }
    }
}

/// Every component of the key holds canonical coordinates.
pub open spec fn vk_ok(vk: VerifyingKey) -> bool {
    &&& g1_ok(vk.alpha_g1)
    &&& g2_ok(vk.beta_g2)
    &&& g2_ok(vk.gamma_g2)
    &&& g2_ok(vk.delta_g2)
    &&& forall|i: int|
        0 <= i < vk.gamma_abc_g1@.len() ==> g1_ok(#[trigger] vk.gamma_abc_g1@[i])
}

/// Every component of the proof holds canonical coordinates.
pub open spec fn proof_ok(p: Groth16Proof) -> bool {
    g1_ok(p.a) && g2_ok(p.b) && g1_ok(p.c)
}

/// The residues of a sequence of scalar-field elements.
pub open spec fn fr_vals(s: Seq<FrElement>) -> Seq<int> {
    s.map_values(|f: FrElement| f@)
}

/// The product of a G1 point by a scalar.  The group law takes pages
/// to state; the result is a function of the scalar and point alone,
/// named so contracts can speak of it.
pub uninterp spec fn g1_smul(k: int, p: G1Model) -> G1Model;

/// The sum of two G1 points; a function of the two points alone.
pub uninterp spec fn g1_sum(p: G1Model, q: G1Model) -> G1Model;

/// Whether the BN254 pairing product `e(−a, b) · e(c1, d1) · e(c2, d2)
/// · e(c3, d3)` is defined and equals one — for curve points, exactly
/// when `e(a, b) = e(c1, d1) · e(c2, d2) · e(c3, d3)`.  A function of
/// the eight points alone.
pub uninterp spec fn pairing_equation_holds(
    a: G1Model,
    b: G2Model,
    c1: G1Model,
    d1: G2Model,
    c2: G1Model,
    d2: G2Model,
    c3: G1Model,
    d3: G2Model,
) -> bool;

/// The linear combination `IC[0] + Σ inputs[i] · IC[i+1]` the verifier
/// folds the public inputs into.
pub open spec fn vk_x_spec(ic: Seq<G1Model>, inputs: Seq<int>) -> G1Model
    decreases inputs.len(),
{
    if inputs.len() == 0 {
        ic[0]
    } else {
        g1_sum(
            vk_x_spec(ic, inputs.drop_last()),
            g1_smul(inputs.last(), ic[inputs.len() as int]),
        )
    }
}

/// Whether the standard Groth16 verification equation
/// `e(A, B) = e(α, β) · e(vk_x, γ) · e(C, δ)` holds, with `vk_x` the
/// fold of the public inputs into the IC points.
pub open spec fn groth16_accepts(
    vk: VerifyingKeyModel,
    public_inputs: Seq<int>,
    proof: ProofModel,
) -> bool {
    pairing_equation_holds(
        proof.a,
        proof.b,
        vk.alpha_g1,
        vk.beta_g2,
        vk_x_spec(vk.gamma_abc_g1, public_inputs),
        vk.gamma_g2,
        proof.c,
        vk.delta_g2,
    )
}

/// Relies on `ark_ec::AffineRepr::mul_bigint` over `ark_bn254`: the
/// scalar multiple of a G1 point, returned in canonical affine form.
#[verifier::external_body]
fn g1_scalar_mul(p: &G1Point, k: &FrElement) -> (r: G1Point)
    requires
        g1_ok(*p),
        fr_ok(*k),
    ensures
        g1_ok(r),
        r@ == g1_smul(k@, p@),
{
    let fq = |e: &FqElement| Fq::from_bigint(BigInt(e.limbs)).unwrap();
    let pa = G1Affine { x: fq(&p.x), y: fq(&p.y), infinity: p.infinity };
    let ra = pa.mul_bigint(k.limbs).into_affine();
    G1Point {
        x: FqElement { limbs: ra.x.into_bigint().0 },
        y: FqElement { limbs: ra.y.into_bigint().0 },
        infinity: ra.infinity,
    }
}

/// Relies on `ark_bn254` G1 group addition: the sum of two points,
/// returned in canonical affine form.
#[verifier::external_body]
fn g1_point_add(p: &G1Point, q: &G1Point) -> (r: G1Point)
    requires
        g1_ok(*p),
        g1_ok(*q),
    ensures
        g1_ok(r),
        r@ == g1_sum(p@, q@),
{
    let fq = |e: &FqElement| Fq::from_bigint(BigInt(e.limbs)).unwrap();
    let pa = G1Affine { x: fq(&p.x), y: fq(&p.y), infinity: p.infinity };
    let qa = G1Affine { x: fq(&q.x), y: fq(&q.y), infinity: q.infinity };
    let ra = (pa.into_group() + qa).into_affine();
    G1Point {
        x: FqElement { limbs: ra.x.into_bigint().0 },
        y: FqElement { limbs: ra.y.into_bigint().0 },
        infinity: ra.infinity,
    }
}

/// Relies on `ark_ec`'s BN254 `multi_miller_loop` and
/// `final_exponentiation`: computes the pairing product
/// `e(−a, b) · e(c1, d1) · e(c2, d2) · e(c3, d3)` and compares it with
/// one, which for curve points holds exactly when
/// `e(a, b) = e(c1, d1) · e(c2, d2) · e(c3, d3)`.  A zero Miller-loop
/// output — possible only for coordinates outside the curve — makes
/// `final_exponentiation` return nothing, which is treated as "the
/// equation does not hold"; the call never panics and the result stays
/// a deterministic function of the eight points.
#[verifier::external_body]
fn groth16_equation(
    a: &G1Point,
    b: &G2Point,
    alpha: &G1Point,
    beta: &G2Point,
    vkx: &G1Point,
    gamma: &G2Point,
    c: &G1Point,
    delta: &G2Point,
) -> (r: bool)
    requires
        g1_ok(*a),
        g2_ok(*b),
        g1_ok(*alpha),
        g2_ok(*beta),
        g1_ok(*vkx),
        g2_ok(*gamma),
        g1_ok(*c),
        g2_ok(*delta),
    ensures
        r == pairing_equation_holds(a@, b@, alpha@, beta@, vkx@, gamma@, c@, delta@),
{
    let fq = |e: &FqElement| Fq::from(BigInt(e.limbs));
    let f2 = |e: &Fq2Element| Fq2::new(fq(&e.c0), fq(&e.c1));
    let g1 = |p: &G1Point| G1Affine { x: fq(&p.x), y: fq(&p.y), infinity: p.infinity };
    let g2 = |p: &G2Point| G2Affine { x: f2(&p.x), y: f2(&p.y), infinity: p.infinity };
    Bn254::final_exponentiation(
        Bn254::multi_miller_loop(
            [-g1(a), g1(alpha), g1(vkx), g1(c)],
            [g2(b), g2(beta), g2(gamma), g2(delta)],
        ),
    ).map_or(false, |e| e.0.is_one())
}

/// Runs the pairing-based verification equation for a parsed key,
/// public inputs and proof.
///
/// The IC vector must hold one point per public input plus one; a
/// mismatch is a format error, reported before any cryptography runs.
/// A `false` result means only that the equation does not hold — that
/// is a normal outcome, not an error.
pub fn verify(vk: &VerifyingKey, public_inputs: &Vec<FrElement>, proof: &Groth16Proof) -> (r:
    Result<bool, ContractError>)
    requires
        vk_ok(*vk),
        proof_ok(*proof),
        forall|i: int| 0 <= i < public_inputs@.len() ==> fr_ok(#[trigger] public_inputs@[i]),
    ensures
        vk.gamma_abc_g1@.len() == public_inputs@.len() + 1 ==> r == Ok::<bool, ContractError>(
            groth16_accepts(vk@, fr_vals(public_inputs@), proof@),
        ),
        vk.gamma_abc_g1@.len() != public_inputs@.len() + 1 ==> r == Err::<bool, ContractError>(
            ContractError::PublicInputCountMismatch {},
        ),
{
    let n = vk.gamma_abc_g1.len();
    if n == 0 || n - 1 != public_inputs.len() {
        return Err(ContractError::PublicInputCountMismatch {});
    }
    let ghost ic = vk@.gamma_abc_g1;
    let ghost vals = fr_vals(public_inputs@);
    let mut acc: G1Point = vk.gamma_abc_g1[0];
    proof {
        assert(vals.subrange(0, 0) =~= Seq::<int>::empty());
        assert(acc@ == ic[0]);
    }
    let mut i: usize = 0;
    while i < public_inputs.len()
        invariant
            i <= public_inputs@.len(),
            public_inputs@.len() + 1 == vk.gamma_abc_g1@.len(),
            vk_ok(*vk),
            forall|k: int| 0 <= k < public_inputs@.len() ==> fr_ok(#[trigger] public_inputs@[k]),
            ic == vk@.gamma_abc_g1,
            vals == fr_vals(public_inputs@),
            g1_ok(acc),
            acc@ == vk_x_spec(ic, vals.subrange(0, i as int)),
        decreases public_inputs@.len() - i,
    {
        let term = g1_scalar_mul(&vk.gamma_abc_g1[i + 1], &public_inputs[i]);
        let next = g1_point_add(&acc, &term);
        proof {
            let pre = vals.subrange(0, i + 1);
            assert(pre.drop_last() =~= vals.subrange(0, i as int));
            assert(pre.last() == vals[i as int]);
            assert(vals[i as int] == public_inputs@[i as int]@);
            assert(ic[i + 1] == vk.gamma_abc_g1@[i + 1]@);
        }
        acc = next;
        i = i + 1;
    }
    proof {
        assert(vals.subrange(0, public_inputs@.len() as int) =~= vals);
    }
    Ok(
        groth16_equation(
            &proof.a,
            &proof.b,
            &vk.alpha_g1,
            &vk.beta_g2,
            &acc,
            &vk.gamma_g2,
            &proof.c,
            &vk.delta_g2,
        ),
    )
}

/// The text of each entry of a wire array.
pub open spec fn rows_view(rows: Seq<Vec<char>>) -> Seq<Seq<char>> {
    rows.map_values(|v: Vec<char>| v@)
}

/// The text of each entry of a nested wire array.
pub open spec fn matrix_view(m: Seq<Vec<Vec<char>>>) -> Seq<Seq<Seq<char>>> {
    m.map_values(|row: Vec<Vec<char>>| rows_view(row@))
}

/// The wire shape of a G1 point: three field numerals.
pub open spec fn g1_rows_ok(rows: Seq<Seq<char>>) -> bool {
    rows.len() == 3 && is_field_numeral(rows[0]) && is_field_numeral(rows[1]) && is_field_numeral(
        rows[2],
    )
}

/// The point a well-shaped G1 wire row denotes.
pub open spec fn g1_of_rows(rows: Seq<Seq<char>>) -> G1Model {
    g1_decode(
        field_numeral_val(rows[0]) % fq_modulus(),
        field_numeral_val(rows[1]) % fq_modulus(),
        field_numeral_val(rows[2]) % fq_modulus(),
    )
}

/// Decodes a G1 point from the string entries of its wire array.
pub fn g1_from_rows(rows: &Vec<Vec<char>>) -> (r: Result<G1Point, ContractError>)
    ensures
        r is Ok <==> g1_rows_ok(rows_view(rows@)),
        r matches Ok(p) ==> g1_ok(p) && p@ == g1_of_rows(rows_view(rows@)),
        rows@.len() != 3 ==> r == Err::<G1Point, ContractError>(ContractError::MalformedPoint {}),
        rows@.len() == 3 && r is Err ==> r == Err::<G1Point, ContractError>(
            ContractError::MalformedFieldElement {},
        ),
{
    if rows.len() != 3 {
        return Err(ContractError::MalformedPoint {});
    }
    proof {
        assert(rows_view(rows@).len() == 3);
        assert(rows_view(rows@)[0] == rows@[0]@);
        assert(rows_view(rows@)[1] == rows@[1]@);
        assert(rows_view(rows@)[2] == rows@[2]@);
    }
    parse_g1_point(&rows[0], &rows[1], &rows[2])
}

/// The wire shape of a G2 point: three coordinate pairs of field
/// numerals.
pub open spec fn g2_rows_ok(rows: Seq<Seq<Seq<char>>>) -> bool {
    &&& rows.len() == 3
    &&& rows[0].len() == 2
    &&& rows[1].len() == 2
    &&& rows[2].len() == 2
    &&& is_field_numeral(rows[0][0])
    &&& is_field_numeral(rows[0][1])
    &&& is_field_numeral(rows[1][0])
    &&& is_field_numeral(rows[1][1])
    &&& is_field_numeral(rows[2][0])
    &&& is_field_numeral(rows[2][1])
}

/// The point a well-shaped G2 wire matrix denotes, or nothing when its
/// `Z` coordinate admits no inverse.
pub open spec fn g2_of_rows(rows: Seq<Seq<Seq<char>>>) -> Option<G2Model> {
    g2_decode(
        field_numeral_val(rows[0][0]) % fq_modulus(),
        field_numeral_val(rows[0][1]) % fq_modulus(),
        field_numeral_val(rows[1][0]) % fq_modulus(),
        field_numeral_val(rows[1][1]) % fq_modulus(),
        field_numeral_val(rows[2][0]) % fq_modulus(),
        field_numeral_val(rows[2][1]) % fq_modulus(),
    )
}

/// Decodes a G2 point from the paired string entries of its wire
/// matrix.
pub fn g2_from_rows(rows: &Vec<Vec<Vec<char>>>) -> (r: Result<G2Point, ContractError>)
    ensures
        r is Ok <==> g2_rows_ok(matrix_view(rows@)) && g2_of_rows(matrix_view(rows@)) is Some,
        r matches Ok(p) ==> g2_ok(p) && Some(p@) == g2_of_rows(matrix_view(rows@)),
        !(rows@.len() == 3 && rows@[0]@.len() == 2 && rows@[1]@.len() == 2 && rows@[2]@.len() == 2)
            ==> r == Err::<G2Point, ContractError>(ContractError::MalformedPoint {}),
{
    if rows.len() != 3 {
        return Err(ContractError::MalformedPoint {});
    }
    if rows[0].len() != 2 || rows[1].len() != 2 || rows[2].len() != 2 {
        return Err(ContractError::MalformedPoint {});
    }
    proof {
        assert(matrix_view(rows@).len() == 3);
        assert(matrix_view(rows@)[0] == rows_view(rows@[0]@));
        assert(matrix_view(rows@)[1] == rows_view(rows@[1]@));
        assert(matrix_view(rows@)[2] == rows_view(rows@[2]@));
        assert(rows_view(rows@[0]@)[0] == rows@[0]@[0]@);
        assert(rows_view(rows@[0]@)[1] == rows@[0]@[1]@);
        assert(rows_view(rows@[1]@)[0] == rows@[1]@[0]@);
        assert(rows_view(rows@[1]@)[1] == rows@[1]@[1]@);
        assert(rows_view(rows@[2]@)[0] == rows@[2]@[0]@);
        assert(rows_view(rows@[2]@)[1] == rows@[2]@[1]@);
    }
    parse_g2_point(&rows[0][0], &rows[0][1], &rows[1][0], &rows[1][1], &rows[2][0], &rows[2][1])
}

/// The G1 wire rows stored under `key` in the top-level object.
#[verifier::opaque]
pub open spec fn g1_rows_at(s: Seq<char>, key: Seq<char>) -> Option<Seq<Seq<char>>> {
    match span_of_key(s, key) {
        Some(sp) => match ssa(s, sp.0) {
            Some(p) => Some(p.0),
            None => None,
        },
        None => None,
    }
}

/// The decoded G1 point stored under `key`, when present and well
/// formed.
#[verifier::opaque]
pub open spec fn g1_component_of(s: Seq<char>, key: Seq<char>) -> Option<G1Model> {
    match g1_rows_at(s, key) {
        Some(rows) => if g1_rows_ok(rows) {
            Some(g1_of_rows(rows))
        } else {
            None
        },
        None => None,
    }
}

/// The G2 wire rows stored under `key` in the top-level object.
#[verifier::opaque]
pub open spec fn g2_rows_at(s: Seq<char>, key: Seq<char>) -> Option<Seq<Seq<Seq<char>>>> {
    match span_of_key(s, key) {
        Some(sp) => ssm(s, sp.0),
        None => None,
    }
}

/// The decoded G2 point stored under `key`, when present, well formed
/// and normalizable.
#[verifier::opaque]
pub open spec fn g2_component_of(s: Seq<char>, key: Seq<char>) -> Option<G2Model> {
    match g2_rows_at(s, key) {
        Some(rows) => if g2_rows_ok(rows) {
            g2_of_rows(rows)
        } else {
            None
        },
        None => None,
    }
}

/// Extracts and decodes the G1 point stored under `key` in the
/// top-level object, exactly as `g1_component_of` describes.
fn g1_component(v: &Vec<char>, key: &str) -> (r: Option<G1Point>)
    ensures
        r is Some <==> g1_component_of(v@, key@) is Some,
        r matches Some(p) ==> g1_ok(p) && Some(p@) == g1_component_of(v@, key@),
{
    proof {
        reveal(g1_rows_at);
        reveal(g1_component_of);
    }
    let span = match object_get_span(v, key) {
        Some(s) => s,
        None => {
            return None;
        },
    };
    let rows = match parse_string_array(v, span.0) {
        Some(p) => p.0,
        None => {
            return None;
        },
    };
    proof {
        assert(rows_view(rows@) =~= rows@.map_values(|x: Vec<char>| x@));
    }
    match g1_from_rows(&rows) {
        Ok(p) => Some(p),
        Err(_) => None,
    }
}

/// Extracts and decodes the G2 point stored under `key` in the
/// top-level object, exactly as `g2_component_of` describes.
fn g2_component(v: &Vec<char>, key: &str) -> (r: Option<G2Point>)
    ensures
        r is Some <==> g2_component_of(v@, key@) is Some,
        r matches Some(p) ==> g2_ok(p) && Some(p@) == g2_component_of(v@, key@),
{
    proof {
        reveal(g2_rows_at);
        reveal(g2_component_of);
    }
    let span = match object_get_span(v, key) {
        Some(s) => s,
        None => {
            return None;
        },
    };
    let rows = match parse_string_matrix(v, span.0) {
        Some(m) => m,
        None => {
            return None;
        },
    };
    proof {
        assert(matrix_view(rows@) =~~= rows@.map_values(
            |row: Vec<Vec<char>>| row@.map_values(|x: Vec<char>| x@),
        ));
    }
    match g2_from_rows(&rows) {
        Ok(p) => Some(p),
        Err(_) => None,
    }
}

/// The IC wire rows of the top-level object.
#[verifier::opaque]
pub open spec fn ic_rows_at(s: Seq<char>) -> Option<Seq<Seq<Seq<char>>>> {
    match span_of_key(s, "IC"@) {
        Some(sp) => ssm(s, sp.0),
        None => None,
    }
}

/// The G1 points an IC row sequence denotes, in index order.
pub open spec fn ic_models(rows: Seq<Seq<Seq<char>>>) -> Seq<G1Model> {
    Seq::new(rows.len(), |i: int| g1_of_rows(rows[i]))
}

/// The text is a well-formed verification-key wire document: valid
/// JSON of the wire subset whose top-level object carries a well-formed
/// G1 point under `vk_alpha_1`, G2 points under `vk_beta_2`,
/// `vk_gamma_2` and `vk_delta_2`, and an array of well-formed G1 points
/// under `IC`.
#[verifier::opaque]
pub open spec fn vk_wire_ok(s: Seq<char>) -> bool {
    &&& spec_document_ok(s)
    &&& g1_component_of(s, "vk_alpha_1"@) is Some
    &&& g2_component_of(s, "vk_beta_2"@) is Some
    &&& g2_component_of(s, "vk_gamma_2"@) is Some
    &&& g2_component_of(s, "vk_delta_2"@) is Some
    &&& ic_rows_at(s) is Some
    &&& forall|i: int|
        0 <= i < ic_rows_at(s).unwrap().len() ==> g1_rows_ok(#[trigger] ic_rows_at(s).unwrap()[i])
}

/// The verifying key a well-formed wire document denotes.
#[verifier::opaque]
pub open spec fn vk_of_wire(s: Seq<char>) -> VerifyingKeyModel {
    VerifyingKeyModel {
        alpha_g1: g1_component_of(s, "vk_alpha_1"@).unwrap(),
        beta_g2: g2_component_of(s, "vk_beta_2"@).unwrap(),
        gamma_g2: g2_component_of(s, "vk_gamma_2"@).unwrap(),
        delta_g2: g2_component_of(s, "vk_delta_2"@).unwrap(),
        gamma_abc_g1: ic_models(ic_rows_at(s).unwrap()),
    }
}

/// The text is a well-formed proof wire document: valid JSON of the
/// wire subset carrying G1 points under `pi_a` and `pi_c` and a G2
/// point under `pi_b`.
#[verifier::opaque]
pub open spec fn proof_wire_ok(s: Seq<char>) -> bool {
    &&& spec_document_ok(s)
    &&& g1_component_of(s, "pi_a"@) is Some
    &&& g2_component_of(s, "pi_b"@) is Some
    &&& g1_component_of(s, "pi_c"@) is Some
}

/// The proof a well-formed wire document denotes.
#[verifier::opaque]
pub open spec fn proof_of_wire(s: Seq<char>) -> ProofModel {
    ProofModel {
        a: g1_component_of(s, "pi_a"@).unwrap(),
        b: g2_component_of(s, "pi_b"@).unwrap(),
        c: g1_component_of(s, "pi_c"@).unwrap(),
    }
}

/// Parses a verification key from its JSON wire format.
///
/// The top-level object must carry `vk_alpha_1` (a G1 point),
/// `vk_beta_2`, `vk_gamma_2` and `vk_delta_2` (G2 points) and `IC` (an
/// array of G1 points).  Malformed JSON, a missing key, a wrong shape
/// or an unparseable coordinate are all reported as an invalid
/// verification key.
/// Decodes every IC row; succeeds exactly when each row is a
/// well-formed G1 triple.
fn ic_points(ic_rows: &Vec<Vec<Vec<char>>>) -> (r: Result<Vec<G1Point>, ContractError>)
    ensures
        r is Ok <==> (forall|k: int|
            0 <= k < matrix_view(ic_rows@).len() ==> g1_rows_ok(
                #[trigger] matrix_view(ic_rows@)[k],
            )),
        r matches Ok(ps) ==> {
            &&& ps@.len() == ic_rows@.len()
            &&& forall|k: int|
                0 <= k < ps@.len() ==> g1_ok(#[trigger] ps@[k]) && ps@[k]@ == g1_of_rows(
                    matrix_view(ic_rows@)[k],
                )
        },
        r is Err ==> r == Err::<Vec<G1Point>, ContractError>(
            ContractError::InvalidVerificationKey {},
        ),
{
    let mut out: Vec<G1Point> = Vec::new();
    let mut i: usize = 0;
    while i < ic_rows.len()
        invariant
            i <= ic_rows@.len(),
            out@.len() == i,
            forall|k: int| 0 <= k < i ==> g1_rows_ok(#[trigger] matrix_view(ic_rows@)[k]),
            forall|k: int|
                0 <= k < i ==> g1_ok(#[trigger] out@[k]) && out@[k]@ == g1_of_rows(
                    matrix_view(ic_rows@)[k],
                ),
        decreases ic_rows@.len() - i,
    {
        proof {
            assert(matrix_view(ic_rows@)[i as int] == rows_view(ic_rows@[i as int]@));
        }
        match g1_from_rows(&ic_rows[i]) {
            Ok(p) => {
                out.push(p);
            },
            Err(_) => {
                return Err(ContractError::InvalidVerificationKey {});
            },
        }
        i = i + 1;
    }
    Ok(out)
}

#[verifier::rlimit(100)]
pub fn parse_verification_key(vk_str: &str) -> (r: Result<VerifyingKey, ContractError>)
    ensures
        r is Ok <==> vk_wire_ok(vk_str@),
        r matches Ok(vk) ==> vk_ok(vk) && vk@ == vk_of_wire(vk_str@),
        r is Err ==> r == Err::<VerifyingKey, ContractError>(
            ContractError::InvalidVerificationKey {},
        ),
{
    proof {
        reveal(ic_rows_at);
        reveal(vk_wire_ok);
        reveal(vk_of_wire);
    }
    let v = to_chars(vk_str);
    if !json_document_ok(&v) {
        return Err(ContractError::InvalidVerificationKey {});
    }
    let alpha_g1 = match g1_component(&v, "vk_alpha_1") {
        Some(p) => p,
        None => {
            return Err(ContractError::InvalidVerificationKey {});
        },
    };
    let beta_g2 = match g2_component(&v, "vk_beta_2") {
        Some(p) => p,
        None => {
            return Err(ContractError::InvalidVerificationKey {});
        },
    };
    let gamma_g2 = match g2_component(&v, "vk_gamma_2") {
        Some(p) => p,
        None => {
            return Err(ContractError::InvalidVerificationKey {});
        },
    };
    let delta_g2 = match g2_component(&v, "vk_delta_2") {
        Some(p) => p,
        None => {
            return Err(ContractError::InvalidVerificationKey {});
        },
    };
    let ic_span = match object_get_span(&v, "IC") {
        Some(s) => s,
        None => {
            return Err(ContractError::InvalidVerificationKey {});
        },
    };
    let ic_rows = match parse_string_matrix(&v, ic_span.0) {
        Some(m) => m,
        None => {
            return Err(ContractError::InvalidVerificationKey {});
        },
    };
    proof {
        assert(matrix_view(ic_rows@) =~~= ic_rows@.map_values(
            |row: Vec<Vec<char>>| row@.map_values(|x: Vec<char>| x@),
        ));
        assert(ic_rows_at(vk_str@) == Some(matrix_view(ic_rows@)));
    }
    let gamma_abc_g1 = match ic_points(&ic_rows) {
        Ok(ps) => ps,
        Err(e) => {
            proof {
                let mv = matrix_view(ic_rows@);
                assert(exists|k: int| 0 <= k < mv.len() && !g1_rows_ok(#[trigger] mv[k]));
                let k0 = choose|k: int| 0 <= k < mv.len() && !g1_rows_ok(#[trigger] mv[k]);
                assert(ic_rows_at(vk_str@).unwrap() == mv);
                assert(!g1_rows_ok(ic_rows_at(vk_str@).unwrap()[k0]));
                assert(!vk_wire_ok(vk_str@));
            }
            return Err(e);
        },
    };
    let vk = VerifyingKey { alpha_g1, beta_g2, gamma_g2, delta_g2, gamma_abc_g1 };
    proof {
        let mv = matrix_view(ic_rows@);
        assert(ic_rows_at(vk_str@).unwrap() == mv);
        assert forall|i: int|
            0 <= i < ic_rows_at(vk_str@).unwrap().len() implies g1_rows_ok(
            #[trigger] ic_rows_at(vk_str@).unwrap()[i],
        ) by {
            assert(ic_rows_at(vk_str@).unwrap()[i] == mv[i]);
        }
        assert(vk_wire_ok(vk_str@));
        assert(vk@.gamma_abc_g1 =~= ic_models(mv));
        assert(vk@ == vk_of_wire(vk_str@));
    }
    Ok(vk)
}

/// Parses a proof from its JSON wire format: `pi_a` (G1), `pi_b` (G2)
/// and `pi_c` (G1).  Any malformed part is reported as an invalid
/// proof.
pub fn parse_snarkjs_proof(proof_str: &str) -> (r: Result<Groth16Proof, ContractError>)
    ensures
        r is Ok <==> proof_wire_ok(proof_str@),
        r matches Ok(p) ==> proof_ok(p) && p@ == proof_of_wire(proof_str@),
        r is Err ==> r == Err::<Groth16Proof, ContractError>(ContractError::InvalidProof {}),
{
    proof {
        reveal(proof_wire_ok);
        reveal(proof_of_wire);
    }
    let v = to_chars(proof_str);
    if !json_document_ok(&v) {
        return Err(ContractError::InvalidProof {});
    }
    let a = match g1_component(&v, "pi_a") {
        Some(p) => p,
        None => {
            return Err(ContractError::InvalidProof {});
        },
    };
    let b = match g2_component(&v, "pi_b") {
        Some(p) => p,
        None => {
            return Err(ContractError::InvalidProof {});
        },
    };
    let c = match g1_component(&v, "pi_c") {
        Some(p) => p,
        None => {
            return Err(ContractError::InvalidProof {});
        },
    };
    Ok(Groth16Proof { a, b, c })
}

/// Parses the public inputs, each a decimal or `0x`-prefixed numeral,
/// into scalar-field elements in order.
pub fn parse_public_inputs(inputs: &[String]) -> (r: Result<Vec<FrElement>, ContractError>)
    ensures
        r is Ok <==> (forall|i: int|
            0 <= i < inputs@.len() ==> is_field_numeral(#[trigger] inputs@[i]@)),
        r matches Ok(fs) ==> {
            &&& fs@.len() == inputs@.len()
            &&& forall|i: int|
                0 <= i < fs@.len() ==> fr_ok(#[trigger] fs@[i]) && fs@[i]@ == field_numeral_val(
                    inputs@[i]@,
                ) % fr_modulus()
        },
        r is Err ==> r == Err::<Vec<FrElement>, ContractError>(
            ContractError::InvalidPublicInputs {},
        ),
{
    let mut out: Vec<FrElement> = Vec::new();
    let mut i: usize = 0;
    while i < inputs.len()
        invariant
            i <= inputs@.len(),
            out@.len() == i,
            forall|k: int| 0 <= k < i ==> is_field_numeral(#[trigger] inputs@[k]@),
            forall|k: int|
                0 <= k < i ==> fr_ok(#[trigger] out@[k]) && out@[k]@ == field_numeral_val(
                    inputs@[k]@,
                ) % fr_modulus(),
        decreases inputs@.len() - i,
    {
        let cs = to_chars(inputs[i].as_str());
        match fr_from_chars(&cs) {
            Ok(f) => {
                out.push(f);
            },
            Err(_) => {
                return Err(ContractError::InvalidPublicInputs {});
            },
        }
        i = i + 1;
    }
    Ok(out)
}

/// The text of each public-input string.
pub open spec fn input_texts(inputs: Seq<String>) -> Seq<Seq<char>> {
    inputs.map_values(|s: String| s@)
}

/// Every public-input string is a field numeral.
pub open spec fn inputs_wire_ok(ins: Seq<Seq<char>>) -> bool {
    forall|i: int| 0 <= i < ins.len() ==> is_field_numeral(#[trigger] ins[i])
}

/// The scalar residues the public-input strings denote, in order.
pub open spec fn wire_input_vals(ins: Seq<Seq<char>>) -> Seq<int> {
    ins.map_values(|s: Seq<char>| field_numeral_val(s) % fr_modulus())
}

/// Verifies a proof given the key, inputs and proof in their string
/// wire forms: parse each part, then run the pairing check.
///
/// When key, proof and inputs are all well formed and the IC length
/// matches the input count, the result is exactly whether the pairing
/// equation holds of the denoted key, inputs and proof; each failure
/// mode is pinned to its error.
pub fn verify_groth16_proof(
    verification_key: &str,
    public_inputs: &[String],
    proof: &str,
) -> (r: Result<bool, ContractError>)
    ensures
        !vk_wire_ok(verification_key@) ==> r == Err::<bool, ContractError>(
            ContractError::InvalidVerificationKey {},
        ),
        vk_wire_ok(verification_key@) && !proof_wire_ok(proof@) ==> r == Err::<bool, ContractError>(
            ContractError::InvalidProof {},
        ),
        vk_wire_ok(verification_key@) && proof_wire_ok(proof@) && !inputs_wire_ok(
            input_texts(public_inputs@),
        ) ==> r == Err::<bool, ContractError>(ContractError::InvalidPublicInputs {}),
        vk_wire_ok(verification_key@) && proof_wire_ok(proof@) && inputs_wire_ok(
            input_texts(public_inputs@),
        ) && vk_of_wire(verification_key@).gamma_abc_g1.len() != public_inputs@.len() + 1 ==> r
            == Err::<bool, ContractError>(ContractError::PublicInputCountMismatch {}),
        vk_wire_ok(verification_key@) && proof_wire_ok(proof@) && inputs_wire_ok(
            input_texts(public_inputs@),
        ) && vk_of_wire(verification_key@).gamma_abc_g1.len() == public_inputs@.len() + 1 ==> r
            == Ok::<bool, ContractError>(
            groth16_accepts(
                vk_of_wire(verification_key@),
                wire_input_vals(input_texts(public_inputs@)),
                proof_of_wire(proof@),
            ),
        ),
{
    let vk = match parse_verification_key(verification_key) {
        Ok(v) => v,
        Err(e) => {
            return Err(e);
        },
    };
    let groth16_proof = match parse_snarkjs_proof(proof) {
        Ok(p) => p,
        Err(e) => {
            return Err(e);
        },
    };
    let field_inputs = match parse_public_inputs(public_inputs) {
        Ok(f) => f,
        Err(e) => {
            proof {
                if inputs_wire_ok(input_texts(public_inputs@)) {
                    assert forall|i: int| 0 <= i < public_inputs@.len() implies is_field_numeral(
                        #[trigger] public_inputs@[i]@,
                    ) by {
                        assert(input_texts(public_inputs@)[i] == public_inputs@[i]@);
                        assert(is_field_numeral(input_texts(public_inputs@)[i]));
                    }
                }
            }
            return Err(e);
        },
    };
    proof {
        assert forall|i: int| 0 <= i < input_texts(public_inputs@).len() implies is_field_numeral(
            #[trigger] input_texts(public_inputs@)[i],
        ) by {
            assert(input_texts(public_inputs@)[i] == public_inputs@[i]@);
        }
        assert(inputs_wire_ok(input_texts(public_inputs@)));
        assert(fr_vals(field_inputs@) =~= wire_input_vals(input_texts(public_inputs@)));
        assert(vk@.gamma_abc_g1.len() == vk.gamma_abc_g1@.len());
    }
    verify(&vk, &field_inputs, &groth16_proof)
}

} // verus!
