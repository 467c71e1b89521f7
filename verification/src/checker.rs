//! The verifier itself: randomly seeded probe vectors, generated once, and
//! the probabilistic check of a claimed matrix product against them.

use vstd::prelude::*;
use crate::field::{f_mul, random_fe, Fe, MODULUS};
use crate::lemmas::{lemma_product_passes_probe, lemma_reject_is_correct};
use crate::matrix::{is_product_mod, is_square, mat_vec_mod, vals, vec_eq, Matrix};

verus! {

/// One probe agrees: projecting through b and then a gives the same reduced
/// vector as projecting the claimed product directly.
pub open spec fn probe_passes(
    a: Seq<Seq<int>>,
    b: Seq<Seq<int>>,
    c: Seq<Seq<int>>,
    p: Seq<int>,
) -> bool {
    mat_vec_mod(a, mat_vec_mod(b, p)) == mat_vec_mod(c, p)
}

/// Every probe of the collection agrees.
pub open spec fn all_probes_pass(
    probes: Seq<Seq<int>>,
    a: Seq<Seq<int>>,
    b: Seq<Seq<int>>,
    c: Seq<Seq<int>>,
) -> bool {
    forall|i: int| 0 <= i < probes.len() ==> probe_passes(a, b, c, #[trigger] probes[i])
}

/// Entry i is the square of entry i - 1 in the field, for every i >= 1.
pub open spec fn is_squaring_chain(p: Seq<int>) -> bool {
    forall|i: int| 1 <= i < p.len() ==> #[trigger] p[i] == f_mul(p[i - 1], p[i - 1])
}

/// Every entry is a reduced field representative.
pub open spec fn entries_reduced(p: Seq<int>) -> bool {
    forall|i: int| 0 <= i < p.len() ==> 0 <= #[trigger] p[i] < MODULUS as int
}

/// All three matrices have exactly the same shape.
pub open spec fn dims_match(a: Matrix, b: Matrix, c: Matrix) -> bool {
    &&& a.spec_nrows() == b.spec_nrows()
    &&& a.spec_ncols() == b.spec_ncols()
    &&& a.spec_nrows() == c.spec_nrows()
    &&& a.spec_ncols() == c.spec_ncols()
}

/// Why a checked verification was refused without running.
#[derive(Clone, Copy, Debug, PartialEq, Eq, Structural)]
pub enum FreivaldError {
    /// The three matrices do not all share one shape.
    DimensionMismatch,
    /// The shared shape is not square.
    NotSquare,
    /// The verifier's probe vectors were built for a different matrix size.
    SizeMismatch,
}

/// True iff a, b and the claimed product all share one shape.
pub fn check_matrix_dimensions(
    matrix_a: &Matrix,
    matrix_b: &Matrix,
    supposed_ab: &Matrix,
) -> (r: bool)
    ensures
        r == dims_match(*matrix_a, *matrix_b, *supposed_ab),
{
    matrix_a.nrows() == matrix_b.nrows() && matrix_a.ncols() == matrix_b.ncols()
        && matrix_a.nrows() == supposed_ab.nrows() && matrix_a.ncols() == supposed_ab.ncols()
}

/// A Freivalds verifier: an immutable collection of probe vectors, each of
/// the matrix size it was built for.
pub struct Freivald {
    size: usize,
    probes: Vec<Vec<Fe>>,
}

impl Freivald {
    /// The matrix size the probes were built for.
    pub closed spec fn spec_size(self) -> nat {
        self.size as nat
    }

    /// The residues of the probe vectors.
    pub closed spec fn spec_probes(self) -> Seq<Seq<int>> {
        self.probes@.map_values(|p: Vec<Fe>| vals(p@))
    }

    /// Every probe vector has exactly the length the verifier was built for.
    pub closed spec fn wf(self) -> bool {
        forall|i: int| 0 <= i < self.probes@.len()
            ==> (#[trigger] self.probes@[i])@.len() == self.size
    }

    /// Each probe's shape, visible to callers: as many probes as requested,
    /// each a reduced squaring chain of the verifier's size.
    pub proof fn lemma_probes_shape(self)
        requires
            self.wf(),
        ensures
            forall|i: int| 0 <= i < self.spec_probes().len()
                ==> (#[trigger] self.spec_probes()[i]).len() == self.spec_size(),
    {
    }

    /// A verifier with a single probe vector of length array_size.
    pub fn new(array_size: usize) -> (r: Freivald)
        ensures
            r.wf(),
            r.spec_size() == array_size,
            r.spec_probes().len() == 1,
            forall|i: int| 0 <= i < r.spec_probes().len()
                ==> is_squaring_chain(#[trigger] r.spec_probes()[i])
                    && entries_reduced(r.spec_probes()[i]),
    {
        Self::with_vectors(array_size, 1)
    }

    /// A verifier with verification_vectors independently seeded probe
    /// vectors, each of length array_size. Zero probe vectors is allowed:
    /// such a verifier accepts every well-shaped claim vacuously.
    pub fn with_vectors(array_size: usize, verification_vectors: usize) -> (r: Freivald)
        ensures
            r.wf(),
            r.spec_size() == array_size,
            r.spec_probes().len() == verification_vectors,
            forall|i: int| 0 <= i < r.spec_probes().len()
                ==> is_squaring_chain(#[trigger] r.spec_probes()[i])
                    && entries_reduced(r.spec_probes()[i]),
    {
        let mut probes: Vec<Vec<Fe>> = Vec::new();
        let mut i: usize = 0;
        while i < verification_vectors
            invariant
                i <= verification_vectors,
                probes@.len() == i,
                forall|j: int| 0 <= j < i ==> (#[trigger] probes@[j])@.len() == array_size,
                forall|j: int| 0 <= j < i
                    ==> is_squaring_chain(vals((#[trigger] probes@[j])@))
                        && entries_reduced(vals(probes@[j]@)),
            decreases verification_vectors - i,
        {
            let p = random_vector(array_size);
            probes.push(p);
            i += 1;
        }
        Freivald { size: array_size, probes }
    }

    /// Runs every probe against the claimed product, stopping at the first
    /// disagreement. True iff every probe agreed; a correct product is
    /// always accepted. Callers must establish the dimension precondition;
    /// try_verify reports its violation as an error instead.
    pub fn verify(
        &self,
        matrix_a: &Matrix,
        matrix_b: &Matrix,
        supposed_ab: &Matrix,
    ) -> (r: bool)
        requires
            self.wf(),
            matrix_a.wf(),
            matrix_b.wf(),
            supposed_ab.wf(),
            dims_match(*matrix_a, *matrix_b, *supposed_ab),
            matrix_a.spec_nrows() == matrix_a.spec_ncols(),
            self.spec_size() == matrix_a.spec_nrows(),
        ensures
            r == all_probes_pass(self.spec_probes(), matrix_a@, matrix_b@, supposed_ab@),
            is_product_mod(matrix_a@, matrix_b@, supposed_ab@) ==> r,
    {
        let n = matrix_a.nrows();
        proof {
            matrix_a.lemma_shape();
            matrix_b.lemma_shape();
            supposed_ab.lemma_shape();
        }
        let mut i: usize = 0;
        while i < self.probes.len()
            invariant
                i <= self.probes@.len(),
                self.wf(),
                matrix_a.wf(),
                matrix_b.wf(),
                supposed_ab.wf(),
                dims_match(*matrix_a, *matrix_b, *supposed_ab),
                matrix_a.spec_nrows() == matrix_a.spec_ncols(),
                self.spec_size() == matrix_a.spec_nrows(),
                n == matrix_a.spec_nrows(),
                is_square(matrix_a@, n as nat),
                is_square(matrix_b@, n as nat),
                is_square(supposed_ab@, n as nat),
                forall|j: int| 0 <= j < i
                    ==> probe_passes(
                        matrix_a@,
                        matrix_b@,
                        supposed_ab@,
                        #[trigger] self.spec_probes()[j],
                    ),
            decreases self.probes@.len() - i,
        {
            let v = &self.probes[i];
            let bv = matrix_b.mul_vec(v);
            let left = matrix_a.mul_vec(&bv);
            let right = supposed_ab.mul_vec(v);
            if !vec_eq(&left, &right) {
                proof {
                    assert(!probe_passes(
                        matrix_a@,
                        matrix_b@,
                        supposed_ab@,
                        self.spec_probes()[i as int],
                    ));
                    lemma_reject_is_correct(
                        matrix_a@,
                        matrix_b@,
                        supposed_ab@,
                        self.spec_probes()[i as int],
                        n as nat,
                    );
                }
                return false;
            }
            i += 1;
        }
        true
    }

    /// The checked variant: instead of demanding well-shaped inputs, reports
    /// a shape violation as an explicit error and otherwise verifies.
    pub fn try_verify(
        &self,
        matrix_a: &Matrix,
        matrix_b: &Matrix,
        supposed_ab: &Matrix,
    ) -> (r: Result<bool, FreivaldError>)
        requires
            self.wf(),
            matrix_a.wf(),
            matrix_b.wf(),
            supposed_ab.wf(),
        ensures
            (r == Err::<bool, FreivaldError>(FreivaldError::DimensionMismatch))
                == !dims_match(*matrix_a, *matrix_b, *supposed_ab),
            (r == Err::<bool, FreivaldError>(FreivaldError::NotSquare))
                == (dims_match(*matrix_a, *matrix_b, *supposed_ab)
                    && matrix_a.spec_nrows() != matrix_a.spec_ncols()),
            (r == Err::<bool, FreivaldError>(FreivaldError::SizeMismatch))
                == (dims_match(*matrix_a, *matrix_b, *supposed_ab)
                    && matrix_a.spec_nrows() == matrix_a.spec_ncols()
                    && self.spec_size() != matrix_a.spec_nrows()),
            (dims_match(*matrix_a, *matrix_b, *supposed_ab)
                && matrix_a.spec_nrows() == matrix_a.spec_ncols()
                && self.spec_size() == matrix_a.spec_nrows())
                ==> r == Ok::<bool, FreivaldError>(all_probes_pass(
                    self.spec_probes(),
                    matrix_a@,
                    matrix_b@,
                    supposed_ab@,
                )),
    {
        if !check_matrix_dimensions(matrix_a, matrix_b, supposed_ab) {
            return Err(FreivaldError::DimensionMismatch);
        }
        if matrix_a.nrows() != matrix_a.ncols() {
            return Err(FreivaldError::NotSquare);
        }
        if self.size != matrix_a.nrows() {
            return Err(FreivaldError::SizeMismatch);
        }
        Ok(self.verify(matrix_a, matrix_b, supposed_ab))
    }

    /// One-shot convenience: a fresh single-probe verifier sized to the
    /// claimed product's row count, then one verification.
    pub fn verify_once(
        matrix_a: &Matrix,
        matrix_b: &Matrix,
        supposed_ab: &Matrix,
    ) -> (r: bool)
        requires
            matrix_a.wf(),
            matrix_b.wf(),
            supposed_ab.wf(),
            dims_match(*matrix_a, *matrix_b, *supposed_ab),
            matrix_a.spec_nrows() == matrix_a.spec_ncols(),
        ensures
            exists|p: Seq<int>|
                p.len() == supposed_ab.spec_nrows() && is_squaring_chain(p)
                    && entries_reduced(p)
                    && r == probe_passes(matrix_a@, matrix_b@, supposed_ab@, p),
            is_product_mod(matrix_a@, matrix_b@, supposed_ab@) ==> r,
    {
        let freivald = Freivald::new(supposed_ab.nrows());
        let r = freivald.verify(matrix_a, matrix_b, supposed_ab);
        proof {
            freivald.lemma_probes_shape();
            let p0 = freivald.spec_probes()[0];
            if !r {
                if probe_passes(matrix_a@, matrix_b@, supposed_ab@, p0) {
                    assert(forall|j: int| 0 <= j < freivald.spec_probes().len()
                        ==> probe_passes(
                            matrix_a@,
                            matrix_b@,
                            supposed_ab@,
                            #[trigger] freivald.spec_probes()[j],
                        ));
                    assert(false);
                }
            }
            assert(p0.len() == supposed_ab.spec_nrows() && is_squaring_chain(p0)
                && entries_reduced(p0)
                && r == probe_passes(matrix_a@, matrix_b@, supposed_ab@, p0));
        }
        r
    }
}

/// A probe vector: a fresh random field element r, then the squaring chain
/// r, r^2, r^4, r^8, ... out to length n.
fn random_vector(n: usize) -> (v: Vec<Fe>)
    ensures
        v@.len() == n,
        is_squaring_chain(vals(v@)),
        entries_reduced(vals(v@)),
{
    let mut v: Vec<Fe> = Vec::new();
    let mut r = random_fe();
    let mut i: usize = 0;
    while i < n
        invariant
            i <= n,
            v@.len() == i,
            r.wf(),
            is_squaring_chain(vals(v@)),
            entries_reduced(vals(v@)),
            i > 0 ==> r@ == f_mul(vals(v@)[i - 1], vals(v@)[i - 1]),
        decreases n - i,
    {
        let ghost prev = vals(v@);
        let ghost r_old = r;
        v.push(r);
        r = r.mul(r);
        i += 1;
        proof {
            assert(vals(v@) =~= prev.push(r_old@));
            assert forall|j: int| 1 <= j < vals(v@).len() implies
                #[trigger] vals(v@)[j] == f_mul(vals(v@)[j - 1], vals(v@)[j - 1]) by {
                if j < vals(v@).len() - 1 {
                    assert(vals(v@)[j] == prev[j]);
                } else {
                    assert(vals(v@)[j] == r_old@);
                }
            };
        }
    }
    v
}

/// Probes only ever help rejection: if every probe of a collection passes,
/// then so does every probe of any prefix of it. Hence a verifier holding
/// more probes rejects every claimed product that one holding a prefix of
/// them rejects.
pub proof fn lemma_more_probes_reject_more(
    probes1: Seq<Seq<int>>,
    probes2: Seq<Seq<int>>,
    a: Seq<Seq<int>>,
    b: Seq<Seq<int>>,
    c: Seq<Seq<int>>,
)
    requires
        probes1.len() <= probes2.len(),
        forall|i: int| 0 <= i < probes1.len() ==> #[trigger] probes2[i] == probes1[i],
    ensures
        all_probes_pass(probes2, a, b, c) ==> all_probes_pass(probes1, a, b, c),
{
    if all_probes_pass(probes2, a, b, c) {
        assert forall|i: int| 0 <= i < probes1.len() implies
            probe_passes(a, b, c, #[trigger] probes1[i]) by {
            assert(probe_passes(a, b, c, probes2[i]));
        };
    }
}

} // verus!

