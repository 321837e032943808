use libesim::ac::{by_signal, stamp_elements, Element};
use libesim::coefficient::Coefficient;
use libesim::dc::AnalysisError;
use libesim::matrix::MnaMatrix;
use libesim::component::Component;
use libesim::mna::{check_dimensions, split_solution, Mna, SolveError};
use libesim::sparse::SparseMat;

#[test]
fn group1_stamp_is_symmetric() {
    let mut m: MnaMatrix<f64> = MnaMatrix::new();
    m.add_symmetric_group1(1, 3, Coefficient::Reciprocal(2.0), Coefficient::NegatedReciprocal(2.0));
    assert_eq!(m.num_voltage_nodes(), 3);
    assert_eq!(m.num_current_edges(), 0);
    let a = m.get_matrix();
    assert_eq!(a.num_rows(), 3);
    assert_eq!(a.terms_at(0, 2), a.terms_at(2, 0));
    assert_eq!(a.terms_at(0, 2), vec![Coefficient::NegatedReciprocal(2.0)]);
    assert_eq!(a.terms_at(0, 0), vec![Coefficient::Reciprocal(2.0)]);
    assert_eq!(a.terms_at(2, 2), vec![Coefficient::Reciprocal(2.0)]);
    assert_eq!(a.terms_at(1, 1), Vec::new());
}

#[test]
fn group1_stamp_to_ground_writes_one_entry() {
    let mut m: MnaMatrix<f64> = MnaMatrix::new();
    m.add_symmetric_group1(2, 0, Coefficient::One, Coefficient::MinusOne);
    let a = m.get_matrix();
    assert_eq!(a.num_rows(), 2);
    assert_eq!(a.entries().len(), 1);
    assert_eq!(a.terms_at(1, 1), vec![Coefficient::One]);
}

#[test]
fn group2_stamp_fills_off_diagonal_blocks() {
    let mut m: MnaMatrix<f64> = MnaMatrix::new();
    m.add_symmetric_group2(2, 0, 1, Coefficient::One, Coefficient::MinusOne, Coefficient::Negated(7.0));
    assert_eq!(m.num_voltage_nodes(), 2);
    assert_eq!(m.num_current_edges(), 2);
    let a = m.get_matrix();
    assert_eq!(a.num_rows(), 4);
    assert_eq!(a.num_cols(), 4);
    // node 2 is row 1; branch 1 is row 2 + 1 = 3
    assert_eq!(a.terms_at(1, 3), vec![Coefficient::One]);
    assert_eq!(a.terms_at(3, 1), vec![Coefficient::One]);
    assert_eq!(a.terms_at(3, 3), vec![Coefficient::Negated(7.0)]);
    assert_eq!(a.entries().len(), 3);
}

#[test]
fn repeated_stamps_accumulate() {
    let mut m: Mna<f64> = Mna::new();
    m.add_impedance(1, 0, None, 4.0);
    m.add_impedance(1, 0, None, 5.0);
    let sys = m.assemble();
    assert_eq!(
        sys.matrix.terms_at(0, 0),
        vec![Coefficient::Reciprocal(4.0), Coefficient::Reciprocal(5.0)]
    );
}

#[test]
fn voltage_source_stamps_rhs() {
    let mut m: Mna<f64> = Mna::new();
    m.add_independent_voltage_source(1, 0, 0, 5.0);
    m.add_impedance(1, 2, Some(1), 3.0);
    assert_eq!(m.num_voltage_nodes(), 2);
    assert_eq!(m.num_current_edges(), 2);
    let sys = m.assemble();
    assert_eq!(sys.rhs.num_rows(), 4);
    assert_eq!(sys.rhs.num_cols(), 1);
    assert_eq!(sys.rhs.terms_at(2, 0), vec![Coefficient::Value(5.0)]);
    assert_eq!(sys.rhs.terms_at(3, 0), Vec::new());
    assert_eq!(sys.matrix.terms_at(2, 2), vec![Coefficient::Zero]);
    assert_eq!(sys.matrix.terms_at(3, 3), vec![Coefficient::Negated(3.0)]);
    assert_eq!(sys.matrix.terms_at(1, 3), vec![Coefficient::MinusOne]);
}

#[test]
fn solution_splits_into_voltages_and_currents() {
    let (v, i) = split_solution(vec![1, 2, 3, 4, 5], 3);
    assert_eq!(v, vec![1, 2, 3]);
    assert_eq!(i, vec![4, 5]);
    let (v, i) = split_solution(vec![1, 2], 2);
    assert_eq!(v, vec![1, 2]);
    assert_eq!(i, Vec::<i32>::new());
}

#[test]
fn shorted_element_is_rejected() {
    let elements = vec![
        Element::Impedance { term_1: 1, term_2: 0, current_edge: None, impedance: 1.0 },
        Element::VoltageSource { term_pos: 2, term_neg: 2, current_edge: 0, voltage: 1.0 },
    ];
    assert!(matches!(stamp_elements(&elements), Err(AnalysisError::SameTerminals)));
}

#[test]
fn per_sample_solutions_become_series() {
    let per_sample = vec![vec![1, 2], vec![3, 4], vec![5, 6]];
    let r = by_signal(&per_sample, 2);
    assert_eq!(r, vec![vec![1, 3, 5], vec![2, 4, 6]]);
    let empty: Vec<Vec<i32>> = Vec::new();
    assert_eq!(by_signal(&empty, 2), vec![Vec::<i32>::new(), Vec::new()]);
}

#[test]
fn dimension_mismatch_is_reported() {
    let a: SparseMat<f64> = SparseMat::new(3, 3);
    assert_eq!(check_dimensions(&a, 3), Ok(()));
    assert_eq!(
        check_dimensions(&a, 2),
        Err(SolveError::DimensionMismatch { rows: 3, len: 2 })
    );
}

#[test]
fn component_current_index() {
    let r: Component<f64> =
        Component::Resistor { term_1: 1, term_2: 2, current_index: None, resistance: 50.0 };
    assert_eq!(r.current_index(), None);
    let r2: Component<f64> =
        Component::Resistor { term_1: 1, term_2: 2, current_index: Some(3), resistance: 50.0 };
    assert_eq!(r2.current_index(), Some(3));
    let v: Component<f64> = Component::IndependentVoltageSource {
        term_pos: 1,
        term_neg: 0,
        current_index: 0,
        voltage: 5.0,
    };
    assert_eq!(v.current_index(), Some(0));
    let e: Component<f64> = Component::VoltageControlledVoltageSource {
        term_pos: 1,
        term_neg: 0,
        ctrl_pos: 2,
        ctrl_neg: 0,
        current_index: 4,
        voltage_scale: 2.0,
    };
    assert_eq!(e.current_index(), Some(4));
    let h: Component<f64> = Component::CurrentControlledVoltageSource {
        term_pos: 1,
        term_neg: 0,
        ctrl_edge: 0,
        current_index: 5,
        voltage_scale: 2.0,
    };
    assert_eq!(h.current_index(), Some(5));
    let i: Component<f64> = Component::IndependentCurrentSource {
        term_pos: 1,
        term_neg: 0,
        current_index: None,
        current: 1.0,
    };
    assert_eq!(i.current_index(), None);
}
