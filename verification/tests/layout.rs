use koenig_damico_planner::layout::{variable_layout, GeneratorShape};

#[test]
fn blocks_follow_each_other_in_candidate_order() {
    // L2 maneuver: epigraph + 3 components; tetrahedral polytope: 4 weights.
    let shapes = [
        GeneratorShape::Norm,
        GeneratorShape::Polytope(4),
        GeneratorShape::Norm,
    ];
    let (offsets, n_var) = variable_layout(&shapes);
    assert_eq!(offsets, vec![0, 4, 8]);
    assert_eq!(n_var, 12);
}

#[test]
fn empty_layout_has_no_variables() {
    let (offsets, n_var) = variable_layout(&[]);
    assert!(offsets.is_empty());
    assert_eq!(n_var, 0);
}

#[test]
fn empty_polytope_owns_no_variables() {
    let (offsets, n_var) = variable_layout(&[GeneratorShape::Polytope(0), GeneratorShape::Norm]);
    assert_eq!(offsets, vec![0, 0]);
    assert_eq!(n_var, 4);
}
