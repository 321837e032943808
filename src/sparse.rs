//! Sparse matrices in coordinate form.
//!
//! A matrix holds declared dimensions and a list of `(row, col, value)`
//! terms. Writing to a coordinate never overwrites: each write appends a
//! term, and the value at a coordinate is the sum of its terms, in the order
//! in which they were written.

use vstd::prelude::*;

use crate::coefficient::Coefficient;

verus! {

/// The terms at `(r, c)` among `entries`, in order of insertion.
pub open spec fn terms_in<T>(entries: Seq<(usize, usize, T)>, r: int, c: int) -> Seq<T>
    decreases entries.len(),
{
    if entries.len() == 0 {
        Seq::empty()
    } else {
        let rest = terms_in(entries.drop_last(), r, c);
        let e = entries.last();
        if e.0 == r && e.1 == c {
            rest.push(e.2)
        } else {
            rest
        }
    }
}

/// `entries` with every column index moved right by `k`.
pub open spec fn shift_cols<T>(entries: Seq<(usize, usize, T)>, k: nat) -> Seq<(usize, usize, T)> {
    entries.map_values(|e: (usize, usize, T)| (e.0, (e.1 + k) as usize, e.2))
}

/// `entries` with every row index moved down by `k`.
pub open spec fn shift_rows<T>(entries: Seq<(usize, usize, T)>, k: nat) -> Seq<(usize, usize, T)> {
    entries.map_values(|e: (usize, usize, T)| ((e.0 + k) as usize, e.1, e.2))
}

/// `entries` with row and column indices exchanged.
pub open spec fn swap_coords<T>(entries: Seq<(usize, usize, T)>) -> Seq<(usize, usize, T)> {
    entries.map_values(|e: (usize, usize, T)| (e.1, e.0, e.2))
}

/// `entries` with every value negated.
pub open spec fn negate_values<T: Copy>(entries: Seq<(usize, usize, Coefficient<T>)>) -> Seq<
    (usize, usize, Coefficient<T>),
> {
    entries.map_values(|e: (usize, usize, Coefficient<T>)| (e.0, e.1, e.2.negated()))
}

proof fn lemma_terms_negate<T: Copy>(s: Seq<(usize, usize, Coefficient<T>)>, r: int, c: int)
    ensures
        terms_in(negate_values(s), r, c) == terms_in(s, r, c).map_values(
            |x: Coefficient<T>| x.negated(),
        ),
    decreases s.len(),
{
    if s.len() > 0 {
        lemma_terms_negate(s.drop_last(), r, c);
        assert(negate_values(s).drop_last() =~= negate_values(s.drop_last()));
        let f = |x: Coefficient<T>| x.negated();
        assert(terms_in(s.drop_last(), r, c).push(s.last().2).map_values(f) =~= terms_in(
            s.drop_last(),
            r,
            c,
        ).map_values(f).push(s.last().2.negated()));
    }
}

proof fn lemma_terms_push<T>(s: Seq<(usize, usize, T)>, e: (usize, usize, T), r: int, c: int)
    ensures
        terms_in(s.push(e), r, c) == if e.0 == r && e.1 == c {
            terms_in(s, r, c).push(e.2)
        } else {
            terms_in(s, r, c)
        },
{
    assert(s.push(e).drop_last() =~= s);
}

proof fn lemma_terms_append<T>(a: Seq<(usize, usize, T)>, b: Seq<(usize, usize, T)>, r: int, c: int)
    ensures
        terms_in(a + b, r, c) == terms_in(a, r, c) + terms_in(b, r, c),
    decreases b.len(),
{
    if b.len() == 0 {
        assert(a + b =~= a);
        assert(terms_in(a, r, c) + terms_in(b, r, c) =~= terms_in(a, r, c));
    } else {
        lemma_terms_append(a, b.drop_last(), r, c);
        assert((a + b).drop_last() =~= a + b.drop_last());
        assert((a + b).last() == b.last());
        if b.last().0 == r && b.last().1 == c {
            assert(terms_in(a, r, c) + terms_in(b.drop_last(), r, c).push(b.last().2)
                =~= (terms_in(a, r, c) + terms_in(b.drop_last(), r, c)).push(b.last().2));
        }
    }
}

proof fn lemma_terms_shift_cols<T>(s: Seq<(usize, usize, T)>, k: nat, r: int, c: int)
    requires
        forall|i: int| 0 <= i < s.len() ==> (#[trigger] s[i]).1 + k <= usize::MAX,
    ensures
        terms_in(shift_cols(s, k), r, c) == if c >= k {
            terms_in(s, r, c - k)
        } else {
            Seq::empty()
        },
    decreases s.len(),
{
    if s.len() > 0 {
        lemma_terms_shift_cols(s.drop_last(), k, r, c);
        assert(shift_cols(s, k).drop_last() =~= shift_cols(s.drop_last(), k));
        assert(s.last() == s[s.len() - 1]);
    }
}

proof fn lemma_terms_shift_rows<T>(s: Seq<(usize, usize, T)>, k: nat, r: int, c: int)
    requires
        forall|i: int| 0 <= i < s.len() ==> (#[trigger] s[i]).0 + k <= usize::MAX,
    ensures
        terms_in(shift_rows(s, k), r, c) == if r >= k {
            terms_in(s, r - k, c)
        } else {
            Seq::empty()
        },
    decreases s.len(),
{
    if s.len() > 0 {
        lemma_terms_shift_rows(s.drop_last(), k, r, c);
        assert(shift_rows(s, k).drop_last() =~= shift_rows(s.drop_last(), k));
        assert(s.last() == s[s.len() - 1]);
    }
}

proof fn lemma_terms_swap<T>(s: Seq<(usize, usize, T)>, r: int, c: int)
    ensures
        terms_in(swap_coords(s), r, c) == terms_in(s, c, r),
    decreases s.len(),
{
    if s.len() > 0 {
        lemma_terms_swap(s.drop_last(), r, c);
        assert(swap_coords(s).drop_last() =~= swap_coords(s.drop_last()));
    }
}

proof fn lemma_terms_outside<T>(s: Seq<(usize, usize, T)>, nr: usize, nc: usize, r: int, c: int)
    requires
        forall|i: int| 0 <= i < s.len() ==> (#[trigger] s[i]).0 < nr && s[i].1 < nc,
        !(0 <= r < nr && 0 <= c < nc),
    ensures
        terms_in(s, r, c) == Seq::<T>::empty(),
    decreases s.len(),
{
    if s.len() > 0 {
        lemma_terms_outside(s.drop_last(), nr, nc, r, c);
        assert(s.last() == s[s.len() - 1]);
    }
}

proof fn lemma_terms_outside_cols<T>(s: Seq<(usize, usize, T)>, k: usize, r: int, c: int)
    requires
        forall|i: int| 0 <= i < s.len() ==> (#[trigger] s[i]).1 < k,
        c >= k,
    ensures
        terms_in(s, r, c) == Seq::<T>::empty(),
    decreases s.len(),
{
    if s.len() > 0 {
        lemma_terms_outside_cols(s.drop_last(), k, r, c);
        assert(s.last() == s[s.len() - 1]);
    }
}

proof fn lemma_terms_outside_rows<T>(s: Seq<(usize, usize, T)>, k: usize, r: int, c: int)
    requires
        forall|i: int| 0 <= i < s.len() ==> (#[trigger] s[i]).0 < k,
        r >= k,
    ensures
        terms_in(s, r, c) == Seq::<T>::empty(),
    decreases s.len(),
{
    if s.len() > 0 {
        lemma_terms_outside_rows(s.drop_last(), k, r, c);
        assert(s.last() == s[s.len() - 1]);
    }
}

/// `after` is `before` with `v` written at `(r, c)`: the dimensions grow to
/// hold the coordinate, the term is appended there, and every other
/// coordinate keeps its terms.
pub open spec fn accumulates<T: Copy>(
    before: SparseMat<T>,
    after: SparseMat<T>,
    r: int,
    c: int,
    v: T,
) -> bool {
    &&& after.wf()
    &&& after.rows() == if r + 1 > before.rows() { (r + 1) as nat } else { before.rows() }
    &&& after.cols() == if c + 1 > before.cols() { (c + 1) as nat } else { before.cols() }
    &&& after.terms(r, c) == before.terms(r, c).push(v)
    &&& forall|i: int, j: int| !(i == r && j == c) ==> after.terms(i, j) == before.terms(i, j)
}

/// Accumulation is additive: writing `a` and then `b` at one coordinate
/// keeps both terms, `a` then `b`, after whatever was there; the second
/// write never replaces the first.
pub proof fn lemma_accumulation_additive<T: Copy>(
    m0: SparseMat<T>,
    m1: SparseMat<T>,
    m2: SparseMat<T>,
    r: int,
    c: int,
    a: T,
    b: T,
)
    requires
        accumulates(m0, m1, r, c, a),
        accumulates(m1, m2, r, c, b),
    ensures
        m2.terms(r, c) == m0.terms(r, c) + seq![a, b],
        m0.terms(r, c) == Seq::<T>::empty() ==> m2.terms(r, c) == seq![a, b],
{
    assert(m0.terms(r, c).push(a).push(b) =~= m0.terms(r, c) + seq![a, b]);
    assert(Seq::<T>::empty() + seq![a, b] =~= seq![a, b]);
}

/// A sparse matrix with accumulate-on-write semantics.
pub struct SparseMat<T> {
    num_rows: usize,
    num_cols: usize,
    entries: Vec<(usize, usize, T)>,
}

impl<T: Copy> SparseMat<T> {
    pub closed spec fn rows(&self) -> nat {
        self.num_rows as nat
    }

    pub closed spec fn cols(&self) -> nat {
        self.num_cols as nat
    }

    /// The terms written at `(r, c)`, oldest first.
    pub closed spec fn terms(&self, r: int, c: int) -> Seq<T> {
        terms_in(self.entries@, r, c)
    }

    /// Every term lies inside the declared dimensions.
    pub closed spec fn wf(&self) -> bool {
        forall|i: int|
            0 <= i < self.entries@.len() ==> (#[trigger] self.entries@[i]).0 < self.num_rows
                && self.entries@[i].1 < self.num_cols
    }

    /// An empty matrix of the given dimensions.
    pub fn new(num_rows: usize, num_cols: usize) -> (r: Self)
        ensures
            r.wf(),
            r.rows() == num_rows,
            r.cols() == num_cols,
            forall|i: int, j: int| r.terms(i, j) == Seq::<T>::empty(),
    {
        SparseMat { num_rows, num_cols, entries: Vec::new() }
    }

    pub fn num_rows(&self) -> (r: usize)
        ensures
            r == self.rows(),
    {
        self.num_rows
    }

    pub fn num_cols(&self) -> (r: usize)
        ensures
            r == self.cols(),
    {
        self.num_cols
    }

    /// A well-formed matrix has no terms outside its dimensions.
    pub proof fn lemma_terms_in_bounds(&self, r: int, c: int)
        requires
            self.wf(),
            !(0 <= r < self.rows() && 0 <= c < self.cols()),
        ensures
            self.terms(r, c) == Seq::<T>::empty(),
    {
        lemma_terms_outside(self.entries@, self.num_rows, self.num_cols, r, c);
    }

    /// The terms written at `(row, col)`, oldest first.
    pub fn terms_at(&self, row: usize, col: usize) -> (r: Vec<T>)
        ensures
            r@ == self.terms(row as int, col as int),
    {
        let mut r: Vec<T> = Vec::new();
        let mut i: usize = 0;
        while i < self.entries.len()
            invariant
                i <= self.entries@.len(),
                r@ == terms_in(self.entries@.take(i as int), row as int, col as int),
            decreases self.entries@.len() - i,
        {
            let e = self.entries[i];
            proof {
                assert(self.entries@.take(i + 1) =~= self.entries@.take(i as int).push(e));
                lemma_terms_push(self.entries@.take(i as int), e, row as int, col as int);
            }
            if e.0 == row && e.1 == col {
                r.push(e.2);
            }
            i = i + 1;
        }
        assert(self.entries@.take(i as int) =~= self.entries@);
        r
    }

    /// All terms of the matrix, in order of insertion.
    pub fn entries(&self) -> (r: &Vec<(usize, usize, T)>)
        ensures
            forall|i: int, j: int| terms_in(r@, i, j) == #[trigger] self.terms(i, j),
            self.wf() ==> forall|k: int|
                0 <= k < r@.len() ==> (#[trigger] r@[k]).0 < self.rows() && r@[k].1 < self.cols(),
    {
        &self.entries
    }

    /// Grow the number of rows to at least `n`. Never truncates.
    pub fn resize_rows(&mut self, n: usize)
        requires
            old(self).wf(),
        ensures
            final(self).wf(),
            final(self).rows() == if n > old(self).rows() { n as nat } else { old(self).rows() },
            final(self).cols() == old(self).cols(),
            forall|i: int, j: int| final(self).terms(i, j) == old(self).terms(i, j),
    {
        if n > self.num_rows {
            self.num_rows = n;
        }
    }

    /// Grow the number of columns to at least `n`. Never truncates.
    pub fn resize_cols(&mut self, n: usize)
        requires
            old(self).wf(),
        ensures
            final(self).wf(),
            final(self).cols() == if n > old(self).cols() { n as nat } else { old(self).cols() },
            final(self).rows() == old(self).rows(),
            forall|i: int, j: int| final(self).terms(i, j) == old(self).terms(i, j),
    {
        if n > self.num_cols {
            self.num_cols = n;
        }
    }

    /// Grow both dimensions to at least `rows` by `cols`.
    pub fn resize(&mut self, rows: usize, cols: usize)
        requires
            old(self).wf(),
        ensures
            final(self).wf(),
            final(self).rows() == if rows > old(self).rows() { rows as nat } else { old(self).rows() },
            final(self).cols() == if cols > old(self).cols() { cols as nat } else { old(self).cols() },
            forall|i: int, j: int| final(self).terms(i, j) == old(self).terms(i, j),
    {
        self.resize_rows(rows);
        self.resize_cols(cols);
    }
}

/// Add `val` to the entry at `(row, col)`, growing the dimensions to hold
/// the coordinate if needed.
pub fn plus_equals<T: Copy>(mat: &mut SparseMat<T>, row: usize, col: usize, val: T)
    requires
        old(mat).wf(),
        row < usize::MAX,
        col < usize::MAX,
    ensures
        accumulates(*old(mat), *final(mat), row as int, col as int, val),
{
    proof {
        lemma_terms_push(mat.entries@, (row, col, val), row as int, col as int);
        assert forall|i: int, j: int| !(i == row && j == col) implies terms_in(
            mat.entries@.push((row, col, val)),
            i,
            j,
        ) == terms_in(mat.entries@, i, j) by {
            lemma_terms_push(mat.entries@, (row, col, val), i, j);
        }
    }
    mat.entries.push((row, col, val));
    if row >= mat.num_rows {
        mat.num_rows = row + 1;
    }
    if col >= mat.num_cols {
        mat.num_cols = col + 1;
    }
}

/// `r` is `a` with `b` placed to its right.
pub open spec fn horizontal_concat_of<T: Copy>(r: SparseMat<T>, a: SparseMat<T>, b: SparseMat<T>) -> bool {
    &&& r.wf()
    &&& r.rows() == a.rows()
    &&& r.cols() == a.cols() + b.cols()
    &&& forall|i: int, j: int| j < a.cols() ==> #[trigger] r.terms(i, j) == a.terms(i, j)
    &&& forall|i: int, j: int|
        0 <= j < b.cols() ==> #[trigger] r.terms(i, j + a.cols()) == b.terms(i, j)
}

/// Reading back the region of `b` in a horizontal concatenation, at column
/// offset `cols(a)`, gives `b` exactly, whatever its pattern of terms.
pub proof fn lemma_concat_horizontal_reads_back<T: Copy>(
    r: SparseMat<T>,
    a: SparseMat<T>,
    b: SparseMat<T>,
)
    requires
        b.wf(),
        horizontal_concat_of(r, a, b),
    ensures
        forall|i: int, j: int|
            0 <= i < b.rows() && 0 <= j < b.cols() ==> #[trigger] r.terms(i, j + a.cols())
                == b.terms(i, j),
{
}

/// Place `b` to the right of `a`. Both must have the same number of rows;
/// the terms of `b` move right by the width of `a`.
pub fn concat_horizontal<T: Copy>(a: SparseMat<T>, b: &SparseMat<T>) -> (r: SparseMat<T>)
    requires
        a.wf(),
        b.wf(),
        a.rows() == b.rows(),
        a.cols() + b.cols() <= usize::MAX,
    ensures
        horizontal_concat_of(r, a, *b),
{
    let mut a = a;
    let a_cols = a.num_cols;
    let ghost a0 = a.entries@;
    a.num_cols = a_cols + b.num_cols;
    let mut i: usize = 0;
    while i < b.entries.len()
        invariant
            a.wf(),
            b.wf(),
            a.num_rows == b.num_rows,
            a.num_cols == a_cols + b.num_cols,
            forall|k: int| 0 <= k < a0.len() ==> (#[trigger] a0[k]).1 < a_cols,
            a_cols + b.num_cols <= usize::MAX,
            i <= b.entries@.len(),
            a.entries@ == a0 + shift_cols(b.entries@.take(i as int), a_cols as nat),
        decreases b.entries@.len() - i,
    {
        let e = b.entries[i];
        assert(b.entries@[i as int] == e);
        a.entries.push((e.0, a_cols + e.1, e.2));
        proof {
            assert(b.entries@.take(i + 1) =~= b.entries@.take(i as int).push(e));
            assert(shift_cols(b.entries@.take(i + 1), a_cols as nat) =~= shift_cols(
                b.entries@.take(i as int),
                a_cols as nat,
            ).push((e.0, (a_cols + e.1) as usize, e.2)));
        }
        i = i + 1;
    }
    proof {
        let sb = b.entries@;
        assert(sb.take(i as int) =~= sb);
        assert forall|ii: int, j: int| j < a_cols implies #[trigger] terms_in(a.entries@, ii, j)
            == terms_in(a0, ii, j) by {
            lemma_terms_append(a0, shift_cols(sb, a_cols as nat), ii, j);
            lemma_terms_shift_cols(sb, a_cols as nat, ii, j);
            assert(terms_in(a0, ii, j) + Seq::<T>::empty() =~= terms_in(a0, ii, j));
        }
        assert forall|ii: int, j: int| 0 <= j < b.num_cols implies #[trigger] terms_in(
            a.entries@,
            ii,
            j + a_cols,
        ) == terms_in(sb, ii, j) by {
            lemma_terms_append(a0, shift_cols(sb, a_cols as nat), ii, j + a_cols);
            lemma_terms_shift_cols(sb, a_cols as nat, ii, j + a_cols);
            lemma_terms_outside_cols(a0, a_cols, ii, j + a_cols);
            assert(Seq::<T>::empty() + terms_in(sb, ii, j) =~= terms_in(sb, ii, j));
        }
    }
    a
}

/// Place `b` below `a`. Both must have the same number of columns; the
/// terms of `b` move down by the height of `a`.
pub fn concat_vertical<T: Copy>(a: SparseMat<T>, b: &SparseMat<T>) -> (r: SparseMat<T>)
    requires
        a.wf(),
        b.wf(),
        a.cols() == b.cols(),
        a.rows() + b.rows() <= usize::MAX,
    ensures
        r.wf(),
        r.cols() == a.cols(),
        r.rows() == a.rows() + b.rows(),
        forall|i: int, j: int| i < a.rows() ==> #[trigger] r.terms(i, j) == a.terms(i, j),
        forall|i: int, j: int|
            0 <= i < b.rows() ==> #[trigger] r.terms(i + a.rows(), j) == b.terms(i, j),
{
    let mut a = a;
    let a_rows = a.num_rows;
    let ghost a0 = a.entries@;
    a.num_rows = a_rows + b.num_rows;
    let mut i: usize = 0;
    while i < b.entries.len()
        invariant
            a.wf(),
            b.wf(),
            a.num_cols == b.num_cols,
            a.num_rows == a_rows + b.num_rows,
            forall|k: int| 0 <= k < a0.len() ==> (#[trigger] a0[k]).0 < a_rows,
            i <= b.entries@.len(),
            a.entries@ == a0 + shift_rows(b.entries@.take(i as int), a_rows as nat),
        decreases b.entries@.len() - i,
    {
        let e = b.entries[i];
        assert(b.entries@[i as int] == e);
        a.entries.push((a_rows + e.0, e.1, e.2));
        proof {
            assert(b.entries@.take(i + 1) =~= b.entries@.take(i as int).push(e));
            assert(shift_rows(b.entries@.take(i + 1), a_rows as nat) =~= shift_rows(
                b.entries@.take(i as int),
                a_rows as nat,
            ).push(((a_rows + e.0) as usize, e.1, e.2)));
        }
        i = i + 1;
    }
    proof {
        let sb = b.entries@;
        assert(sb.take(i as int) =~= sb);
        assert forall|ii: int, j: int| ii < a_rows implies #[trigger] terms_in(a.entries@, ii, j)
            == terms_in(a0, ii, j) by {
            lemma_terms_append(a0, shift_rows(sb, a_rows as nat), ii, j);
            lemma_terms_shift_rows(sb, a_rows as nat, ii, j);
            assert(terms_in(a0, ii, j) + Seq::<T>::empty() =~= terms_in(a0, ii, j));
        }
        assert forall|ii: int, j: int| 0 <= ii < b.num_rows implies #[trigger] terms_in(
            a.entries@,
            ii + a_rows,
            j,
        ) == terms_in(sb, ii, j) by {
            lemma_terms_append(a0, shift_rows(sb, a_rows as nat), ii + a_rows, j);
            lemma_terms_shift_rows(sb, a_rows as nat, ii + a_rows, j);
            lemma_terms_outside_rows(a0, a_rows, ii + a_rows, j);
            assert(Seq::<T>::empty() + terms_in(sb, ii, j) =~= terms_in(sb, ii, j));
        }
    }
    a
}

/// A fresh matrix with rows and columns exchanged.
pub fn transpose<T: Copy>(a: &SparseMat<T>) -> (r: SparseMat<T>)
    requires
        a.wf(),
    ensures
        r.wf(),
        r.rows() == a.cols(),
        r.cols() == a.rows(),
        forall|i: int, j: int| #[trigger] r.terms(i, j) == a.terms(j, i),
{
    let mut r: SparseMat<T> = SparseMat { num_rows: a.num_cols, num_cols: a.num_rows, entries: Vec::new() };
    let mut i: usize = 0;
    while i < a.entries.len()
        invariant
            a.wf(),
            r.wf(),
            r.num_rows == a.num_cols,
            r.num_cols == a.num_rows,
            i <= a.entries@.len(),
            r.entries@ == swap_coords(a.entries@.take(i as int)),
        decreases a.entries@.len() - i,
    {
        let e = a.entries[i];
        assert(a.entries@[i as int] == e);
        r.entries.push((e.1, e.0, e.2));
        proof {
            assert(a.entries@.take(i + 1) =~= a.entries@.take(i as int).push(e));
            assert(swap_coords(a.entries@.take(i + 1)) =~= swap_coords(a.entries@.take(i as int)).push(
                (e.1, e.0, e.2),
            ));
        }
        i = i + 1;
    }
    proof {
        assert(a.entries@.take(i as int) =~= a.entries@);
        assert forall|ii: int, j: int| #[trigger] terms_in(r.entries@, ii, j) == terms_in(
            a.entries@,
            j,
            ii,
        ) by {
            lemma_terms_swap(a.entries@, ii, j);
        }
    }
    r
}

/// A fresh matrix with every term negated.
pub fn neg<T: Copy>(a: &SparseMat<Coefficient<T>>) -> (r: SparseMat<Coefficient<T>>)
    requires
        a.wf(),
    ensures
        r.wf(),
        r.rows() == a.rows(),
        r.cols() == a.cols(),
        forall|i: int, j: int|
            #[trigger] r.terms(i, j) == a.terms(i, j).map_values(
                |x: Coefficient<T>| x.negated(),
            ),
{
    let mut r: SparseMat<Coefficient<T>> = SparseMat {
        num_rows: a.num_rows,
        num_cols: a.num_cols,
        entries: Vec::new(),
    };
    let mut i: usize = 0;
    while i < a.entries.len()
        invariant
            a.wf(),
            r.wf(),
            r.num_rows == a.num_rows,
            r.num_cols == a.num_cols,
            i <= a.entries@.len(),
            r.entries@ == negate_values(a.entries@.take(i as int)),
        decreases a.entries@.len() - i,
    {
        let e = a.entries[i];
        assert(a.entries@[i as int] == e);
        r.entries.push((e.0, e.1, e.2.negate()));
        proof {
            assert(a.entries@.take(i + 1) =~= a.entries@.take(i as int).push(e));
            assert(negate_values(a.entries@.take(i + 1)) =~= negate_values(
                a.entries@.take(i as int),
            ).push((e.0, e.1, e.2.negated())));
        }
        i = i + 1;
    }
    proof {
        assert(a.entries@.take(i as int) =~= a.entries@);
        assert forall|ii: int, j: int| #[trigger] terms_in(r.entries@, ii, j) == terms_in(
            a.entries@,
            ii,
            j,
        ).map_values(|x: Coefficient<T>| x.negated()) by {
            lemma_terms_negate(a.entries@, ii, j);
        }
    }
    r
}

} // verus!
