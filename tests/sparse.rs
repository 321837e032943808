use libesim::coefficient::Coefficient;
use libesim::sparse::{concat_horizontal, concat_vertical, neg, plus_equals, transpose, SparseMat};

#[test]
fn accumulation_keeps_both_writes() {
    let mut m: SparseMat<i64> = SparseMat::new(0, 0);
    plus_equals(&mut m, 1, 2, 3);
    plus_equals(&mut m, 1, 2, 4);
    assert_eq!(m.terms_at(1, 2), vec![3, 4]);
    assert_eq!(m.terms_at(2, 1), Vec::<i64>::new());
    assert_eq!(m.num_rows(), 2);
    assert_eq!(m.num_cols(), 3);
}

#[test]
fn accumulation_on_real_values_sums() {
    let mut m: SparseMat<f64> = SparseMat::new(1, 1);
    plus_equals(&mut m, 0, 0, 1.5);
    plus_equals(&mut m, 0, 0, 2.25);
    let total: f64 = m.terms_at(0, 0).iter().sum();
    assert_eq!(total, 3.75);
}

#[test]
fn concat_horizontal_reads_back_right_block() {
    let mut a: SparseMat<i64> = SparseMat::new(3, 2);
    plus_equals(&mut a, 0, 0, 1);
    plus_equals(&mut a, 2, 1, 2);
    let mut b: SparseMat<i64> = SparseMat::new(3, 3);
    plus_equals(&mut b, 0, 0, 10);
    plus_equals(&mut b, 1, 2, 20);
    plus_equals(&mut b, 2, 1, 30);
    let r = concat_horizontal(a, &b);
    assert_eq!(r.num_rows(), 3);
    assert_eq!(r.num_cols(), 5);
    assert_eq!(r.terms_at(0, 0), vec![1]);
    assert_eq!(r.terms_at(2, 1), vec![2]);
    for i in 0..3 {
        for j in 0..3 {
            assert_eq!(r.terms_at(i, j + 2), b.terms_at(i, j));
        }
    }
}

#[test]
fn concat_vertical_places_below() {
    let mut a: SparseMat<i64> = SparseMat::new(2, 2);
    plus_equals(&mut a, 1, 1, 5);
    let mut b: SparseMat<i64> = SparseMat::new(1, 2);
    plus_equals(&mut b, 0, 1, 7);
    let r = concat_vertical(a, &b);
    assert_eq!(r.num_rows(), 3);
    assert_eq!(r.num_cols(), 2);
    assert_eq!(r.terms_at(1, 1), vec![5]);
    assert_eq!(r.terms_at(2, 1), vec![7]);
    assert_eq!(r.terms_at(0, 1), Vec::<i64>::new());
}

#[test]
fn transpose_swaps_coordinates() {
    let mut a: SparseMat<i64> = SparseMat::new(2, 3);
    plus_equals(&mut a, 0, 2, 9);
    let t = transpose(&a);
    assert_eq!(t.num_rows(), 3);
    assert_eq!(t.num_cols(), 2);
    assert_eq!(t.terms_at(2, 0), vec![9]);
    assert_eq!(t.terms_at(0, 2), Vec::<i64>::new());
}

#[test]
fn neg_flips_every_term() {
    let mut a: SparseMat<Coefficient<f64>> = SparseMat::new(2, 2);
    plus_equals(&mut a, 0, 1, Coefficient::One);
    plus_equals(&mut a, 1, 0, Coefficient::Reciprocal(2.0));
    plus_equals(&mut a, 1, 0, Coefficient::Negated(3.0));
    let n = neg(&a);
    assert_eq!(n.terms_at(0, 1), vec![Coefficient::MinusOne]);
    assert_eq!(
        n.terms_at(1, 0),
        vec![Coefficient::NegatedReciprocal(2.0), Coefficient::Value(3.0)]
    );
}

#[test]
fn resize_never_truncates() {
    let mut a: SparseMat<i64> = SparseMat::new(0, 0);
    plus_equals(&mut a, 4, 4, 1);
    a.resize(2, 2);
    assert_eq!(a.num_rows(), 5);
    assert_eq!(a.num_cols(), 5);
    assert_eq!(a.terms_at(4, 4), vec![1]);
    a.resize_rows(8);
    a.resize_cols(6);
    assert_eq!(a.num_rows(), 8);
    assert_eq!(a.num_cols(), 6);
}
