use libesim::ac::{by_signal, stamp_elements, Element};
use libesim::coefficient::Coefficient;
use libesim::dc::{AnalysisError, LinearDcAnalysis};
use libesim::mna::{split_solution, Mna, MnaSystem};
use libesim::node_map::NodeMapError;
use num::complex::Complex;

fn eval(c: &Coefficient<Complex<f64>>) -> Complex<f64> {
    let one = Complex::new(1.0, 0.0);
    match c {
        Coefficient::Zero => Complex::new(0.0, 0.0),
        Coefficient::One => one,
        Coefficient::MinusOne => -one,
        Coefficient::Value(p) => *p,
        Coefficient::Negated(p) => -*p,
        Coefficient::Reciprocal(p) => one / *p,
        Coefficient::NegatedReciprocal(p) => -one / *p,
    }
}

fn to_complex(c: &Coefficient<f64>) -> Coefficient<Complex<f64>> {
    let z = |p: &f64| Complex::new(*p, 0.0);
    match c {
        Coefficient::Zero => Coefficient::Zero,
        Coefficient::One => Coefficient::One,
        Coefficient::MinusOne => Coefficient::MinusOne,
        Coefficient::Value(p) => Coefficient::Value(z(p)),
        Coefficient::Negated(p) => Coefficient::Negated(z(p)),
        Coefficient::Reciprocal(p) => Coefficient::Reciprocal(z(p)),
        Coefficient::NegatedReciprocal(p) => Coefficient::NegatedReciprocal(z(p)),
    }
}

/// Dense Gaussian elimination with partial pivoting; `Err(column)` where
/// no usable pivot exists.
fn solve_dense(sys: &MnaSystem<Complex<f64>>) -> Result<Vec<Complex<f64>>, usize> {
    let n = sys.matrix.num_rows();
    assert_eq!(sys.rhs.num_rows(), n);
    let mut a = vec![vec![Complex::new(0.0, 0.0); n]; n];
    let mut b = vec![Complex::new(0.0, 0.0); n];
    for (r, c, v) in sys.matrix.entries().iter() {
        a[*r][*c] += eval(v);
    }
    for (r, _, v) in sys.rhs.entries().iter() {
        b[*r] += eval(v);
    }
    for col in 0..n {
        let pivot = (col..n)
            .max_by(|x, y| a[*x][col].norm().partial_cmp(&a[*y][col].norm()).unwrap())
            .unwrap();
        if a[pivot][col].norm() < 1e-12 {
            return Err(col);
        }
        a.swap(col, pivot);
        b.swap(col, pivot);
        for row in 0..n {
            if row != col {
                let f = a[row][col] / a[col][col];
                for k in col..n {
                    let t = a[col][k];
                    a[row][k] -= f * t;
                }
                let t = b[col];
                b[row] -= f * t;
            }
        }
    }
    Ok((0..n).map(|i| b[i] / a[i][i]).collect())
}

fn solve_real(sys: MnaSystem<f64>) -> Result<(Vec<f64>, Vec<f64>), usize> {
    let n = sys.num_voltage_nodes;
    let mut matrix = libesim::sparse::SparseMat::new(sys.matrix.num_rows(), sys.matrix.num_cols());
    for (r, c, v) in sys.matrix.entries().iter() {
        libesim::sparse::plus_equals(&mut matrix, *r, *c, to_complex(v));
    }
    let mut rhs = libesim::sparse::SparseMat::new(sys.rhs.num_rows(), 1);
    for (r, c, v) in sys.rhs.entries().iter() {
        libesim::sparse::plus_equals(&mut rhs, *r, *c, to_complex(v));
    }
    let csys = MnaSystem {
        matrix,
        rhs,
        num_voltage_nodes: sys.num_voltage_nodes,
        num_current_edges: sys.num_current_edges,
    };
    let x = solve_dense(&csys)?;
    let (v, i) = split_solution(x.iter().map(|z| z.re).collect(), n);
    Ok((v, i))
}

#[test]
fn voltage_divider() {
    let mut dc: LinearDcAnalysis<f64> = LinearDcAnalysis::new();
    assert_eq!(dc.add_resistor("vcc", "v_out", None, 4.7), Ok(()));
    assert_eq!(dc.add_resistor("v_out", "gnd", None, 4.7), Ok(()));
    assert_eq!(dc.add_independent_voltage_source("vcc", "gnd", "v1", 5.0), Ok(()));
    assert_eq!(dc.node_map().node_name(2), "v_out");
    let sys = dc.assemble().unwrap();
    let (voltages, currents) = solve_real(sys).unwrap();
    assert_eq!(voltages.len(), 2);
    assert_eq!(currents.len(), 1);
    assert!((voltages[0] - 5.0).abs() < 1e-9);
    assert!((voltages[1] - 2.5).abs() < 1e-9);
}

#[test]
fn two_resistor_ladder() {
    let mut mna: Mna<f64> = Mna::new();
    mna.add_impedance(1, 0, None, 50.0);
    mna.add_impedance(2, 1, None, 50.0);
    mna.add_independent_voltage_source(2, 0, 0, 5.0);
    let (v, i) = solve_real(mna.assemble()).unwrap();
    assert!((v[0] - 2.5).abs() < 1e-9);
    assert!((v[1] - 5.0).abs() < 1e-9);
    assert!((i[0] + 0.05).abs() < 1e-9);
}

#[test]
fn resistor_in_group2_reports_its_current() {
    let mut mna: Mna<f64> = Mna::new();
    mna.add_impedance(1, 0, Some(1), 50.0);
    mna.add_impedance(2, 1, None, 50.0);
    mna.add_independent_voltage_source(2, 0, 0, 5.0);
    let (v, i) = solve_real(mna.assemble()).unwrap();
    assert!((v[0] - 2.5).abs() < 1e-9);
    assert!((v[1] - 5.0).abs() < 1e-9);
    assert!((i[0] + 0.05).abs() < 1e-9);
    assert!((i[1] - 0.05).abs() < 1e-9);
}

#[test]
fn floating_node_is_singular() {
    let mut mna: Mna<f64> = Mna::new();
    mna.add_independent_voltage_source(1, 0, 0, 5.0);
    mna.add_impedance(1, 0, None, 10.0);
    mna.add_impedance(2, 3, None, 10.0);
    assert!(solve_real(mna.assemble()).is_err());
}

#[test]
fn dc_rejects_shorted_and_conflicting_terminals() {
    let mut dc: LinearDcAnalysis<f64> = LinearDcAnalysis::new();
    assert_eq!(dc.add_resistor("a", "a", None, 1.0), Err(AnalysisError::SameTerminals));
    assert_eq!(dc.add_resistor("a", "gnd", None, 1.0), Ok(()));
    assert_eq!(
        dc.add_independent_voltage_source("a", "0", "v1", 1.0),
        Err(AnalysisError::GroundNameMismatch)
    );
    let _ = NodeMapError::GroundNameMismatch;
}

fn capacitor_circuit(omega: f64, c: f64) -> Vec<Element<Complex<f64>>> {
    let z = Complex::new(1.0, 0.0) / (Complex::new(0.0, omega) * c);
    vec![
        Element::Impedance { term_1: 1, term_2: 0, current_edge: None, impedance: z },
        Element::VoltageSource {
            term_pos: 1,
            term_neg: 0,
            current_edge: 0,
            voltage: Complex::new(5.0, 0.0),
        },
    ]
}

#[test]
fn ac_single_capacitor() {
    let omega = 2.0 * std::f64::consts::PI * 100.0;
    let c = 1e-9;
    let mna = stamp_elements(&capacitor_circuit(omega, c)).unwrap();
    let sys = mna.assemble();
    let n = sys.num_voltage_nodes;
    let x = solve_dense(&sys).unwrap();
    let (v, i) = split_solution(x, n);
    assert!((v[0].norm() - 5.0).abs() < 1e-9);
    let expected = (Complex::new(0.0, omega) * c * Complex::new(5.0, 0.0)).norm();
    assert!((i[0].norm() - expected).abs() < 1e-15);
}

#[test]
fn frequency_sweep_shape() {
    let (f_start, f_end, num_steps) = (1.0, 2.0, 3usize);
    let f: Vec<f64> = (0..num_steps)
        .map(|n| f_start + (n as f64) * (f_end - f_start) / num_steps as f64)
        .collect();
    let mut voltages = Vec::new();
    let mut currents = Vec::new();
    let mut nv = 0;
    let mut ne = 0;
    for freq in f.iter() {
        let omega = 2.0 * std::f64::consts::PI * freq;
        let mut elements = capacitor_circuit(omega, 1e-6);
        elements.push(Element::Impedance {
            term_1: 2,
            term_2: 1,
            current_edge: None,
            impedance: Complex::new(100.0, 0.0),
        });
        elements.push(Element::Impedance {
            term_1: 2,
            term_2: 0,
            current_edge: None,
            impedance: Complex::new(0.0, omega * 1e-3),
        });
        let sys = stamp_elements(&elements).unwrap().assemble();
        nv = sys.num_voltage_nodes;
        ne = sys.num_current_edges;
        let x = solve_dense(&sys).unwrap();
        let (v, i) = split_solution(x, nv);
        voltages.push(v);
        currents.push(i);
    }
    let v = by_signal(&voltages, nv);
    let i = by_signal(&currents, ne);
    assert_eq!(f.len(), 3);
    assert_eq!(v.len(), 2);
    assert_eq!(i.len(), 1);
    for series in v.iter().chain(i.iter()) {
        assert_eq!(series.len(), f.len());
    }
    for m in 0..3 {
        assert_eq!(v[0][m], voltages[m][0]);
    }
}
