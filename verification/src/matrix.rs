//! Vectors and square matrices of field elements, with verified
//! matrix-vector multiplication — the only product Freivalds' check needs.

use vstd::prelude::*;
use vstd::arithmetic::div_mod::lemma_add_mod_noop;
use crate::field::{Fe, MODULUS};

verus! {

/// The residues held by a sequence of field elements.
pub open spec fn vals(s: Seq<Fe>) -> Seq<int> {
    s.map_values(|e: Fe| e@)
}

/// The integer dot product of two equally long sequences, without reduction.
pub open spec fn dot_int(u: Seq<int>, v: Seq<int>) -> int
    decreases u.len(),
{
    if u.len() == 0 || v.len() == 0 {
        0
    } else {
        dot_int(u.drop_last(), v.drop_last()) + u.last() * v.last()
    }
}

/// The matrix-vector product, each entry reduced into the field.
pub open spec fn mat_vec_mod(m: Seq<Seq<int>>, v: Seq<int>) -> Seq<int> {
    Seq::new(m.len(), |i: int| dot_int(m[i], v) % (MODULUS as int))
}

/// Column k of a matrix given as a sequence of rows.
pub open spec fn col(m: Seq<Seq<int>>, k: int) -> Seq<int> {
    Seq::new(m.len(), |j: int| m[j][k])
}

/// Entry (i, k) of the true product a x b, as an unreduced integer.
pub open spec fn product_entry(a: Seq<Seq<int>>, b: Seq<Seq<int>>, i: int, k: int) -> int {
    dot_int(a[i], col(b, k))
}

/// c agrees, entry by entry and modulo the field, with the product a x b.
pub open spec fn is_product_mod(a: Seq<Seq<int>>, b: Seq<Seq<int>>, c: Seq<Seq<int>>) -> bool {
    forall|i: int, k: int|
        0 <= i < c.len() && 0 <= k < c[i].len()
            ==> (#[trigger] c[i][k]) % (MODULUS as int)
                == product_entry(a, b, i, k) % (MODULUS as int)
}

/// m is an n x n grid of rows.
pub open spec fn is_square(m: Seq<Seq<int>>, n: nat) -> bool {
    m.len() == n && forall|i: int| 0 <= i < m.len() ==> (#[trigger] m[i]).len() == n
}

/// A rectangular matrix of field elements, stored row-major.
pub struct Matrix {
    rows: Vec<Vec<Fe>>,
    ncols: usize,
}

impl View for Matrix {
    type V = Seq<Seq<int>>;

    closed spec fn view(&self) -> Seq<Seq<int>> {
        self.rows@.map_values(|row: Vec<Fe>| vals(row@))
    }
}

impl Matrix {
    /// Every row has exactly ncols entries.
    pub closed spec fn wf(self) -> bool {
        forall|i: int| 0 <= i < self.rows@.len() ==> (#[trigger] self.rows@[i])@.len() == self.ncols
    }

    pub closed spec fn spec_nrows(self) -> nat {
        self.rows@.len()
    }

    pub closed spec fn spec_ncols(self) -> nat {
        self.ncols as nat
    }

    /// The view of a well-formed matrix has one row per stored row, each of width ncols.
    pub proof fn lemma_shape(self)
        requires
            self.wf(),
        ensures
            self@.len() == self.spec_nrows(),
            forall|i: int| 0 <= i < self@.len() ==> (#[trigger] self@[i]).len() == self.spec_ncols(),
    {
    }

    pub fn nrows(&self) -> (r: usize)
        ensures
            r == self.spec_nrows(),
    {
        self.rows.len()
    }

    pub fn ncols(&self) -> (r: usize)
        ensures
            r == self.spec_ncols(),
    {
        self.ncols
    }

    /// Builds a matrix from its rows; refused unless every row has width ncols.
    pub fn from_rows(rows: Vec<Vec<Fe>>, ncols: usize) -> (r: Option<Matrix>)
        ensures
            match r {
                Some(m) => {
                    &&& m.wf()
                    &&& m.spec_nrows() == rows@.len()
                    &&& m.spec_ncols() == ncols as nat
                    &&& m@ == rows@.map_values(|row: Vec<Fe>| vals(row@))
                },
                None => !(forall|i: int|
                    0 <= i < rows@.len() ==> (#[trigger] rows@[i])@.len() == ncols),
            },
    {
        let mut i: usize = 0;
        while i < rows.len()
            invariant
                i <= rows@.len(),
                forall|j: int| 0 <= j < i ==> (#[trigger] rows@[j])@.len() == ncols,
            decreases rows@.len() - i,
        {
            if rows[i].len() != ncols {
                return None;
            }
            i += 1;
        }
        Some(Matrix { rows, ncols })
    }

    /// Multiplies this matrix by a column vector, reducing every entry.
    pub fn mul_vec(&self, v: &Vec<Fe>) -> (r: Vec<Fe>)
        requires
            self.wf(),
            v@.len() == self.spec_ncols(),
        ensures
            r@.len() == self.spec_nrows(),
            vals(r@) == mat_vec_mod(self@, vals(v@)),
            forall|j: int| 0 <= j < r@.len() ==> (#[trigger] r@[j]).wf(),
    {
        let mut out: Vec<Fe> = Vec::new();
        let mut i: usize = 0;
        while i < self.rows.len()
            invariant
                i <= self.rows@.len(),
                out@.len() == i,
                self.wf(),
                v@.len() == self.spec_ncols(),
                forall|j: int| 0 <= j < i
                    ==> (#[trigger] out@[j])@ == dot_int(self@[j], vals(v@)) % (MODULUS as int),
                forall|j: int| 0 <= j < i ==> (#[trigger] out@[j]).wf(),
            decreases self.rows@.len() - i,
        {
            let d = dot(&self.rows[i], v);
            out.push(d);
            i += 1;
        }
        proof {
            assert(vals(out@) =~= mat_vec_mod(self@, vals(v@)));
        }
        out
    }
}

/// The reduced dot product of two equally long vectors of field elements.
pub fn dot(u: &Vec<Fe>, v: &Vec<Fe>) -> (r: Fe)
    requires
        u@.len() == v@.len(),
    ensures
        r@ == dot_int(vals(u@), vals(v@)) % (MODULUS as int),
        r.wf(),
{
    let mut acc = Fe::zero();
    let mut i: usize = 0;
    while i < u.len()
        invariant
            i <= u@.len(),
            u@.len() == v@.len(),
            acc.wf(),
            acc@ == dot_int(vals(u@).take(i as int), vals(v@).take(i as int)) % (MODULUS as int),
        decreases u@.len() - i,
    {
        let prod = u[i].mul(v[i]);
        let next = acc.add(prod);
        proof {
            let uu = vals(u@);
            let vv = vals(v@);
            let ii = i as int;
            let d = dot_int(uu.take(ii), vv.take(ii));
            assert(uu.take(ii + 1).drop_last() =~= uu.take(ii));
            assert(vv.take(ii + 1).drop_last() =~= vv.take(ii));
            assert(uu.take(ii + 1).last() == uu[ii]);
            assert(vv.take(ii + 1).last() == vv[ii]);
            assert(dot_int(uu.take(ii + 1), vv.take(ii + 1)) == d + uu[ii] * vv[ii]);
            lemma_add_mod_noop(d, uu[ii] * vv[ii], MODULUS as int);
            assert(next@ == dot_int(uu.take(ii + 1), vv.take(ii + 1)) % (MODULUS as int));
        }
        acc = next;
        i += 1;
    }
    proof {
        assert(vals(u@).take(u@.len() as int) =~= vals(u@));
        assert(vals(v@).take(v@.len() as int) =~= vals(v@));
    }
    acc
}

/// Element-wise equality of two equally long vectors of field elements.
pub fn vec_eq(a: &Vec<Fe>, b: &Vec<Fe>) -> (r: bool)
    requires
        a@.len() == b@.len(),
    ensures
        r == (vals(a@) == vals(b@)),
{
    let mut i: usize = 0;
    while i < a.len()
        invariant
            i <= a@.len(),
            a@.len() == b@.len(),
            forall|j: int| 0 <= j < i ==> vals(a@)[j] == #[trigger] vals(b@)[j],
        decreases a@.len() - i,
    {
        if !a[i].equals(b[i]) {
            proof {
                assert(vals(a@)[i as int] != vals(b@)[i as int]);
            }
            return false;
        }
        i += 1;
    }
    proof {
        assert(vals(a@) =~= vals(b@));
    }
    true
}

} // verus!
