use lau_contact_agents::contact_form::{alpha_at_origin, manifold_dimension};
use lau_contact_agents::gray_stability::GrayStability;
use lau_contact_agents::legendrian::standard_tangent_basis;
use lau_contact_agents::weinstein::WeinsteinVerifier;

#[test]
fn standard_tangent_basis_n1() {
    assert_eq!(standard_tangent_basis(1), vec![vec![1], vec![0], vec![0]]);
}

#[test]
fn standard_tangent_basis_n2() {
    let b = standard_tangent_basis(2);
    assert_eq!(b, vec![vec![1, 0], vec![0, 1], vec![0, 0], vec![0, 0], vec![0, 0]]);
}

#[test]
fn standard_legendrian_annihilated_by_alpha_at_origin() {
    for n in 1..5usize {
        let b = standard_tangent_basis(n);
        let a = alpha_at_origin(n);
        for j in 0..n {
            let dot: i64 = (0..2 * n + 1).map(|i| a[i] * b[i][j]).sum();
            assert_eq!(dot, 0);
        }
    }
}

#[test]
fn gray_all_steps_contact_is_isotopic() {
    let checks = vec![true; 11];
    let gs = GrayStability::from_step_checks(1, 10, &checks);
    assert!(gs.is_isotopic);
    assert_eq!(gs.n, 1);
    assert_eq!(gs.interpolation_steps, 10);
}

#[test]
fn gray_degenerate_last_step_is_not_isotopic() {
    let mut checks = vec![true; 11];
    checks[10] = false;
    let gs = GrayStability::from_step_checks(1, 10, &checks);
    assert!(!gs.is_isotopic);
    assert_eq!(gs.interpolation_steps, 10);
}

#[test]
fn gray_degenerate_first_step_is_not_isotopic() {
    let mut checks = vec![true; 6];
    checks[0] = false;
    assert!(!GrayStability::from_step_checks(2, 5, &checks).is_isotopic);
}

#[test]
fn gray_zero_steps_single_sample() {
    assert!(GrayStability::from_step_checks(1, 0, &vec![true]).is_isotopic);
    assert!(!GrayStability::from_step_checks(1, 0, &vec![false]).is_isotopic);
}

#[test]
fn test_moser_vector_field() {
    let gs = GrayStability { n: 1, is_isotopic: true, interpolation_steps: 10 };
    let x = gs.moser_vector_field();
    assert_eq!(x.len(), 3);
    assert_eq!(x, vec![0, 0, 1]);
}

#[test]
fn test_verifier_creation() {
    let v: WeinsteinVerifier<u32> = WeinsteinVerifier::new(1);
    assert_eq!(v.min_orbits, 1);
    assert_eq!(v.num_orbits(), 0);
    assert!(!v.weinstein_satisfied()); // no orbits yet
}

#[test]
fn verifier_with_one_orbit_is_satisfied() {
    let v = WeinsteinVerifier::with_orbits(2, vec![7u32]);
    assert_eq!(v.n, 2);
    assert_eq!(v.min_orbits, 1);
    assert_eq!(v.num_orbits(), 1);
    assert!(v.weinstein_satisfied());
}

#[test]
fn verifier_with_raised_minimum() {
    let mut v = WeinsteinVerifier::with_orbits(1, vec![1u8, 2u8]);
    v.min_orbits = 3;
    assert!(!v.weinstein_satisfied());
    v.orbits.push(3);
    assert!(v.weinstein_satisfied());
}

#[test]
fn gray_stops_at_first_failing_sample() {
    let gs = GrayStability::from_step_checks(1, 10, &vec![true, true, false]);
    assert!(!gs.is_isotopic);
    assert_eq!(gs.interpolation_steps, 10);
}

#[test]
fn gray_incomplete_sampling_is_not_isotopic() {
    assert!(!GrayStability::from_step_checks(1, 10, &vec![true; 4]).is_isotopic);
    assert!(!GrayStability::from_step_checks(1, 3, &vec![]).is_isotopic);
}

#[test]
fn test_standard_legendrian() {
    let basis = standard_tangent_basis(1);
    // submanifold dimension: the number of tangent vectors
    assert_eq!(basis[0].len(), 1);
    // ambient dimension
    assert_eq!(basis.len(), 3);
    assert_eq!(manifold_dimension(1), 3);
}

#[test]
fn test_weinstein_s3() {
    // the standard orbit generation on S^3 yields one closed orbit
    let verifier = WeinsteinVerifier::with_orbits(1, vec!["hopf orbit"]);
    assert!(verifier.weinstein_satisfied());
    assert!(verifier.num_orbits() >= 1);
}

#[test]
fn test_weinstein_s5() {
    let verifier = WeinsteinVerifier::with_orbits(2, vec!["hopf orbit"]);
    assert!(verifier.weinstein_satisfied());
}
