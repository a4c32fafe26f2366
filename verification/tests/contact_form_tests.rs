use lau_contact_agents::contact_form::{
    alpha_at_origin, manifold_dimension, standard_exterior_derivative, ReebVectorField,
};

#[test]
fn test_standard_contact_form_dimension() {
    assert_eq!(manifold_dimension(1), 3);
    assert_eq!(manifold_dimension(2), 5);
}

#[test]
fn test_dimension() {
    assert_eq!(manifold_dimension(1), 3);
    assert_eq!(manifold_dimension(2), 5);
    assert_eq!(manifold_dimension(3), 7);
}

#[test]
fn test_exterior_derivative_standard() {
    let dalpha = standard_exterior_derivative(1);
    // dα = dx ∧ dy
    assert!((dalpha[0][1] as f64 - 1.0).abs() < 1e-10);
    assert!((dalpha[1][0] as f64 - (-1.0)).abs() < 1e-10);
    assert!((dalpha[0][0] as f64).abs() < 1e-10);
}

#[test]
fn exterior_derivative_full_matrix_n1() {
    let dalpha = standard_exterior_derivative(1);
    assert_eq!(dalpha, vec![vec![0, 1, 0], vec![-1, 0, 0], vec![0, 0, 0]]);
}

#[test]
fn exterior_derivative_n2_is_skew_symmetric() {
    let dalpha = standard_exterior_derivative(2);
    assert_eq!(dalpha.len(), 5);
    assert_eq!(dalpha[0][2], 1);
    assert_eq!(dalpha[1][3], 1);
    assert_eq!(dalpha[2][0], -1);
    assert_eq!(dalpha[3][1], -1);
    for i in 0..5 {
        assert_eq!(dalpha[i].len(), 5);
        for j in 0..5 {
            assert_eq!(dalpha[i][j], -dalpha[j][i]);
        }
    }
}

#[test]
fn exterior_derivative_n0_is_zero() {
    assert_eq!(standard_exterior_derivative(0), vec![vec![0]]);
}

#[test]
fn alpha_at_origin_is_dz() {
    assert_eq!(alpha_at_origin(1), vec![0, 0, 1]);
    assert_eq!(alpha_at_origin(2), vec![0, 0, 0, 0, 1]);
}

#[test]
fn test_reeb_standard() {
    let reeb = ReebVectorField::new(1);
    let r = reeb.evaluate();
    assert!((r[0] as f64).abs() < 1e-10);
    assert!((r[1] as f64).abs() < 1e-10);
    assert!((r[2] as f64 - 1.0).abs() < 1e-10);
}

#[test]
fn test_reeb_n2() {
    let reeb = ReebVectorField::new(2);
    let r = reeb.evaluate();
    assert_eq!(r.len(), 5);
    assert!((r[4] as f64 - 1.0).abs() < 1e-10);
}

#[test]
fn reeb_new_keeps_n() {
    assert_eq!(ReebVectorField::new(3).n, 3);
}

#[test]
fn test_reeb_dalpha_condition() {
    let reeb = ReebVectorField::new(1);
    assert!(reeb.verify_dalpha_condition(1));
}

#[test]
fn reeb_dalpha_condition_higher_dimensions() {
    for n in 0..6 {
        assert!(ReebVectorField::new(n).verify_dalpha_condition(n));
    }
}

#[test]
fn reeb_alpha_pairing_at_origin_is_one() {
    let r = ReebVectorField::new(2).evaluate();
    let a = alpha_at_origin(2);
    let dot: i64 = a.iter().zip(r.iter()).map(|(x, y)| x * y).sum();
    assert_eq!(dot, 1);
}

fn integer_determinant(m: &Vec<Vec<i64>>) -> i64 {
    let k = m.len();
    if k == 0 {
        return 1;
    }
    let mut total = 0;
    for j in 0..k {
        let minor: Vec<Vec<i64>> = m[1..]
            .iter()
            .map(|row| row.iter().enumerate().filter(|(c, _)| *c != j).map(|(_, v)| *v).collect())
            .collect();
        let sign = if j % 2 == 0 { 1 } else { -1 };
        total += sign * m[0][j] * integer_determinant(&minor);
    }
    total
}

#[test]
fn standard_form_top_wedge_at_origin_is_one() {
    for n in 0..4usize {
        let dalpha = standard_exterior_derivative(n);
        let mut top = vec![alpha_at_origin(n)];
        for r in 0..2 * n {
            top.push(dalpha[r].clone());
        }
        let d = integer_determinant(&top);
        assert_eq!(d, 1);
    }
}
