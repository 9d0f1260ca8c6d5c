//! Tests of the field-element codec and the projective point decoder.

use zk_verifier::curve::{parse_g1_point, parse_g2_point};
use zk_verifier::error::ContractError;
use zk_verifier::field::{parse_field_element, parse_fq_element};

const FQ_MODULUS_DEC: &str =
    "21888242871839275222246405745257275088696311157297823662689037894645226208583";
const FR_MODULUS_DEC: &str =
    "21888242871839275222246405745257275088548364400416034343698204186575808495617";

fn cv(s: &str) -> Vec<char> {
    s.chars().collect()
}

#[test]
fn hex_zero_and_decimal_zero_agree() {
    let a = parse_field_element("0x0").unwrap();
    let b = parse_field_element("0").unwrap();
    assert_eq!(a.limbs, b.limbs);
    assert_eq!(a.limbs, [0, 0, 0, 0]);
}

#[test]
fn leading_zeros_never_change_a_value() {
    assert_eq!(
        parse_field_element("7").unwrap().limbs,
        parse_field_element("0007").unwrap().limbs
    );
    assert_eq!(
        parse_field_element("0xff").unwrap().limbs,
        parse_field_element("0x00ff").unwrap().limbs
    );
    assert_eq!(
        parse_field_element("0xff").unwrap().limbs,
        parse_field_element("255").unwrap().limbs
    );
}

#[test]
fn values_reduce_modulo_the_field_order() {
    // The modulus itself reduces to zero; one above it to one.
    assert_eq!(parse_fq_element(FQ_MODULUS_DEC).unwrap().limbs, [0, 0, 0, 0]);
    assert_eq!(parse_field_element(FR_MODULUS_DEC).unwrap().limbs, [0, 0, 0, 0]);
    let above =
        "21888242871839275222246405745257275088548364400416034343698204186575808495618";
    assert_eq!(parse_field_element(above).unwrap().limbs, [1, 0, 0, 0]);
}

#[test]
fn malformed_numerals_are_rejected() {
    for bad in ["", "0x", "12a", "xyz", "-5", "0x12g4", " 12"] {
        assert!(
            matches!(
                parse_field_element(bad),
                Err(ContractError::MalformedFieldElement {})
            ),
            "input {:?} should be rejected",
            bad
        );
    }
}

#[test]
fn zero_z_yields_the_identity_whatever_x_and_y_hold() {
    let p = parse_g1_point(&cv("4"), &cv("6"), &cv("0")).unwrap();
    assert!(p.infinity);
    assert_eq!(p.x.limbs, [0, 0, 0, 0]);
    assert_eq!(p.y.limbs, [0, 0, 0, 0]);

    // A Z congruent to zero modulo the field order is zero as well.
    let p = parse_g1_point(&cv("123"), &cv("456"), &cv(FQ_MODULUS_DEC)).unwrap();
    assert!(p.infinity);
}

#[test]
fn unit_z_keeps_affine_coordinates() {
    let p = parse_g1_point(&cv("4"), &cv("6"), &cv("1")).unwrap();
    assert!(!p.infinity);
    assert_eq!(p.x.limbs, [4, 0, 0, 0]);
    assert_eq!(p.y.limbs, [6, 0, 0, 0]);
}

#[test]
fn projective_encoding_round_trips_through_the_decoder() {
    // Encode a known affine point as the projective triple (X, Y, 1)
    // and decode it back.
    let x = "11559732032986387107991004021392285783925812861821192530917403151452391805634";
    let y = "4082367875863433681332203403145435568316851327593401208105741076214120093531";
    let p = parse_g1_point(&cv(x), &cv(y), &cv("1")).unwrap();
    let q = parse_g1_point(&cv(x), &cv(y), &cv("1")).unwrap();
    assert!(!p.infinity);
    assert_eq!(p.x.limbs, q.x.limbs);
    assert_eq!(p.x.limbs, parse_fq_element(x).unwrap().limbs);
    assert_eq!(p.y.limbs, parse_fq_element(y).unwrap().limbs);
}

#[test]
fn nonunit_z_divides_the_coordinates() {
    let p = parse_g1_point(&cv("4"), &cv("6"), &cv("2")).unwrap();
    assert!(!p.infinity);
    assert_eq!(p.x.limbs, [2, 0, 0, 0]);
    assert_eq!(p.y.limbs, [3, 0, 0, 0]);
}

#[test]
fn g2_identity_and_unit_z() {
    let p = parse_g2_point(&cv("1"), &cv("2"), &cv("3"), &cv("4"), &cv("0"), &cv("0")).unwrap();
    assert!(p.infinity);

    let p = parse_g2_point(&cv("1"), &cv("2"), &cv("3"), &cv("4"), &cv("1"), &cv("0")).unwrap();
    assert!(!p.infinity);
    assert_eq!(p.x.c0.limbs, [1, 0, 0, 0]);
    assert_eq!(p.x.c1.limbs, [2, 0, 0, 0]);
    assert_eq!(p.y.c0.limbs, [3, 0, 0, 0]);
    assert_eq!(p.y.c1.limbs, [4, 0, 0, 0]);
}

#[test]
fn g2_division_runs_in_the_extension_field() {
    // With Z = (0, 1) = u, the inverse of Z is -u, so (x0 + x1 u) / u
    // is (x1 - x0 u): the components swap and one is negated.
    let p = parse_g2_point(&cv("5"), &cv("7"), &cv("0"), &cv("0"), &cv("0"), &cv("1")).unwrap();
    assert!(!p.infinity);
    assert_eq!(p.x.c0.limbs, [7, 0, 0, 0]);
    // -5 mod q: check against the parsed complement.
    let minus_five =
        "21888242871839275222246405745257275088696311157297823662689037894645226208578";
    assert_eq!(p.x.c1.limbs, parse_fq_element(minus_five).unwrap().limbs);
}

#[test]
fn g1_rejects_malformed_coordinates() {
    assert!(matches!(
        parse_g1_point(&cv("abc"), &cv("6"), &cv("1")),
        Err(ContractError::MalformedFieldElement {})
    ));
}

#[test]
fn wrong_arity_is_a_malformed_point() {
    let rows: Vec<Vec<char>> = vec!["1".chars().collect(), "2".chars().collect()];
    assert!(matches!(
        zk_verifier::groth16::g1_from_rows(&rows),
        Err(ContractError::MalformedPoint {})
    ));
}
