use zkvm_core::air::Expr;
use zkvm_core::extension::Ext;
use zkvm_core::field::Felt;
use zkvm_core::stark::domain::Domain;
use zkvm_core::stark::types::{AirOpenedValues, ChipOpenedValues, MachineChip, ShardOpenedValues};
use zkvm_core::stark::verification::{
    fold_constraints, monomial_of, unflatten_values, Verifier,
    OodEvaluationMismatch, VerificationError,
};

fn f(n: u32) -> Felt {
    Felt::from_canonical_u32(n)
}

fn e(c0: u32, c1: u32, c2: u32, c3: u32) -> Ext {
    Ext::new(f(c0), f(c1), f(c2), f(c3))
}

fn base(n: u32) -> Ext {
    Ext::from_base(f(n))
}

/// A chip of one column that holds five on every row.
fn fives(name: &str) -> MachineChip {
    MachineChip {
        name: name.to_string(),
        preprocessed_width: 0,
        width: 1,
        constraints: vec![Expr::Sub(Box::new(Expr::Local(0)), Box::new(Expr::Const(5)))],
        sends: Vec::new(),
        receives: Vec::new(),
    }
}

/// What a proof opens for a trace whose one column holds `value` on every
/// row: every polynomial is constant.
fn constant_opening(value: u32, chunks: usize) -> ChipOpenedValues {
    ChipOpenedValues {
        preprocessed: AirOpenedValues { local: Vec::new(), next: Vec::new() },
        main: AirOpenedValues { local: vec![base(value)], next: vec![base(value)] },
        permutation: AirOpenedValues { local: vec![Ext::zero(); 4], next: vec![Ext::zero(); 4] },
        quotient: vec![vec![Ext::zero(); 4]; chunks],
        cumulative_sum: Ext::zero(),
        log_degree: 2,
    }
}

fn trace_domain() -> Domain {
    Domain { log_n: 2, shift: f(1) }
}

fn quotient_domains() -> Vec<Domain> {
    vec![Domain { log_n: 2, shift: f(31) }]
}

fn challenges() -> [Ext; 2] {
    [e(3, 1, 4, 1), e(5, 9, 2, 6)]
}

fn alpha() -> Ext {
    e(2, 7, 1, 8)
}

fn zeta() -> Ext {
    e(1, 6, 1, 8)
}

fn verify(chips: &Vec<MachineChip>, opened: Vec<ChipOpenedValues>, ok: bool) -> Result<(), VerificationError> {
    let n = chips.len();
    Verifier::verify_shard(
        chips,
        &ShardOpenedValues { chips: opened },
        &vec![trace_domain(); n],
        &vec![quotient_domains(); n],
        ok,
        &challenges(),
        alpha(),
        zeta(),
    )
}

fn name_of(r: Result<(), VerificationError>) -> String {
    match r {
        Err(VerificationError::OodEvaluationMismatch(name)) => name,
        other => panic!("{:?}", other),
    }
}

#[test]
fn a_valid_opening_is_accepted() {
    let chips = vec![fives("First"), fives("Second")];
    let opened = vec![constant_opening(5, 1), constant_opening(5, 1)];
    assert!(verify(&chips, opened, true).is_ok());
}

#[test]
fn a_changed_value_is_rejected_with_the_name_of_its_chip() {
    let chips = vec![fives("First"), fives("Second"), fives("Third")];
    let valid = || vec![constant_opening(5, 1), constant_opening(5, 1), constant_opening(5, 1)];

    let mut opened = valid();
    opened[1].main.local[0] = base(6);
    assert_eq!(name_of(verify(&chips, opened, true)), "Second");

    let mut opened = valid();
    opened[2].quotient[0][3] = base(1);
    assert_eq!(name_of(verify(&chips, opened, true)), "Third");

    let mut opened = valid();
    opened[0].permutation.local[0] = base(1);
    assert_eq!(name_of(verify(&chips, opened, true)), "First");

    let mut opened = valid();
    opened[0].permutation.next[2] = base(1);
    assert_eq!(name_of(verify(&chips, opened, true)), "First");

    let mut opened = valid();
    opened[1].cumulative_sum = base(1);
    assert_eq!(name_of(verify(&chips, opened, true)), "Second");

    // Of two chips that fail, the first is named.
    let mut opened = valid();
    opened[2].main.local[0] = base(4);
    opened[1].main.local[0] = base(4);
    assert_eq!(name_of(verify(&chips, opened, true)), "Second");
}

#[test]
fn openings_of_the_wrong_shape_are_rejected() {
    let chips = vec![fives("First")];
    let mut opened = vec![constant_opening(5, 1)];
    opened[0].main.next.push(base(5));
    assert_eq!(name_of(verify(&chips, opened, true)), "First");
    let mut opened = vec![constant_opening(5, 1)];
    opened[0].quotient[0].pop();
    assert_eq!(name_of(verify(&chips, opened, true)), "First");
    let opened = vec![constant_opening(5, 2)];
    assert_eq!(name_of(verify(&chips, opened, true)), "First");
    let mut opened = vec![constant_opening(5, 1)];
    opened[0].permutation.local.pop();
    assert_eq!(name_of(verify(&chips, opened, true)), "First");
}

#[test]
fn an_invalid_opening_proof_is_rejected_as_such() {
    let chips = vec![fives("First")];
    let r = verify(&chips, vec![constant_opening(5, 1)], false);
    assert!(matches!(r, Err(VerificationError::InvalidopeningArgument)));
    assert_eq!(r.unwrap_err().message(), "Invalid opening argument");
}

#[test]
fn an_error_says_which_chip() {
    let error = VerificationError::OodEvaluationMismatch("Cpu".to_string());
    assert_eq!(error.message(), "Out-of-domain evaluation mismatch on chip Cpu");
}

#[test]
fn a_point_of_the_trace_domain_is_no_point_to_verify_at() {
    let chip = fives("First");
    let r = Verifier::verify_constraints(
        &chip,
        &constant_opening(5, 1),
        trace_domain(),
        &quotient_domains(),
        base(1),
        alpha(),
        &challenges(),
    );
    assert_eq!(r, Err(OodEvaluationMismatch));
}

#[test]
fn the_quotient_is_the_folded_constraints_over_the_vanishing_polynomial() {
    // The column holds six: the constraint is one at every point. The
    // constraints of the permutation columns vanish, so the constraints
    // fold to alpha^3.
    let chip = fives("First");
    let sels = trace_domain().selectors_at_point(&zeta()).unwrap();
    let quotient = alpha().mul(alpha()).mul(alpha()).mul(sels.inv_zeroifier);
    let mut opening = constant_opening(6, 1);
    opening.quotient[0] =
        vec![Ext::from_base(quotient.c0), Ext::from_base(quotient.c1), Ext::from_base(quotient.c2), Ext::from_base(quotient.c3)];
    let check = |o: &ChipOpenedValues| {
        Verifier::verify_constraints(
            &chip,
            o,
            trace_domain(),
            &quotient_domains(),
            zeta(),
            alpha(),
            &challenges(),
        )
    };
    assert_eq!(check(&opening), Ok(()));
    opening.quotient[0][1] = opening.quotient[0][1].add(Ext::one());
    assert_eq!(check(&opening), Err(OodEvaluationMismatch));
}

#[test]
fn the_chunks_of_the_quotient_weigh_by_the_other_domains() {
    let chip = fives("First");
    let sels = trace_domain().selectors_at_point(&zeta()).unwrap();
    let quotient = alpha().mul(alpha()).mul(alpha()).mul(sels.inv_zeroifier);
    let d0 = Domain { log_n: 2, shift: f(31) };
    let d1 = Domain { log_n: 2, shift: f(62) };
    // The weight of the first chunk: the vanishing polynomial of the second
    // domain at the point, over its value at the first point of the first.
    let weight = d1
        .zp_at_point(&zeta())
        .unwrap()
        .mul(d1.zp_at_point(&d0.first_point()).unwrap().try_inverse().unwrap());
    let chunk = quotient.mul(weight.try_inverse().unwrap());
    let mut opening = constant_opening(6, 2);
    opening.quotient[0] =
        vec![Ext::from_base(chunk.c0), Ext::from_base(chunk.c1), Ext::from_base(chunk.c2), Ext::from_base(chunk.c3)];
    let r = Verifier::verify_constraints(
        &chip,
        &opening,
        trace_domain(),
        &vec![d0, d1],
        zeta(),
        alpha(),
        &challenges(),
    );
    assert_eq!(r, Ok(()));
    // The same coefficients in the second chunk weigh otherwise.
    opening.quotient.swap(0, 1);
    let r = Verifier::verify_constraints(
        &chip,
        &opening,
        trace_domain(),
        &vec![d0, d1],
        zeta(),
        alpha(),
        &challenges(),
    );
    assert_eq!(r, Err(OodEvaluationMismatch));
}

#[test]
fn folding_is_by_powers_of_alpha() {
    let a = alpha();
    let vals = vec![base(1), base(2), base(3)];
    // ((1 * alpha) + 2) * alpha + 3.
    let expected = base(1).mul(a).add(base(2)).mul(a).add(base(3));
    assert_eq!(fold_constraints(&vals, a), expected);
    assert_eq!(fold_constraints(&Vec::new(), a), Ext::zero());
}

#[test]
fn four_opened_values_are_one_element_of_the_extension() {
    assert_eq!(monomial_of(0), e(1, 0, 0, 0));
    assert_eq!(monomial_of(2), e(0, 0, 1, 0));
    let flat = vec![base(1), base(2), base(3), base(4), e(0, 1, 0, 0), e(0, 1, 0, 0), base(0), base(0)];
    // 1 + 2x + 3x^2 + 4x^3, and x + x * x.
    assert_eq!(unflatten_values(&flat), vec![e(1, 2, 3, 4), e(0, 1, 1, 0)]);
}
