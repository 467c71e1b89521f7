//! The algebra behind Freivalds' check: a claimed product that is correct
//! modulo the field agrees with the true product on every probe vector, and a
//! probe that disagrees refutes the claim outright.

use vstd::prelude::*;
use vstd::arithmetic::div_mod::{lemma_add_mod_noop, lemma_mul_mod_noop_general, lemma_mod_twice};
use vstd::arithmetic::mul::{
    lemma_mul_is_associative, lemma_mul_is_distributive_add,
    lemma_mul_is_distributive_add_other_way,
};
use crate::field::MODULUS;
use crate::matrix::{col, dot_int, is_product_mod, is_square, mat_vec_mod, product_entry};

verus! {

/// The matrix-vector product with unreduced integer entries.
pub open spec fn mat_vec_int(m: Seq<Seq<int>>, v: Seq<int>) -> Seq<int> {
    Seq::new(m.len(), |i: int| dot_int(m[i], v))
}

/// Entry-wise sum of two sequences.
pub open spec fn seq_add(x: Seq<int>, y: Seq<int>) -> Seq<int> {
    Seq::new(x.len(), |i: int| x[i] + y[i])
}

/// Every entry multiplied by s.
pub open spec fn seq_scale(s: int, x: Seq<int>) -> Seq<int> {
    Seq::new(x.len(), |i: int| s * x[i])
}

/// The row vector u times the matrix b: entry k is the dot of u with column k.
pub open spec fn row_times(u: Seq<int>, b: Seq<Seq<int>>, width: nat) -> Seq<int> {
    Seq::new(width, |k: int| dot_int(u, col(b, k)))
}

/// A dot product of all zeroes vanishes.
proof fn lemma_dot_zero(z: Seq<int>, p: Seq<int>)
    requires
        forall|k: int| 0 <= k < z.len() ==> #[trigger] z[k] == 0,
    ensures
        dot_int(z, p) == 0,
    decreases z.len(),
{
    if z.len() == 0 || p.len() == 0 {
    } else {
        lemma_dot_zero(z.drop_last(), p.drop_last());
    }
}

/// Entry-wise congruent vectors have congruent dot products.
proof fn lemma_dot_congruent(u1: Seq<int>, v1: Seq<int>, u2: Seq<int>, v2: Seq<int>)
    requires
        u1.len() == v1.len(),
        u1.len() == u2.len(),
        u1.len() == v2.len(),
        forall|j: int| 0 <= j < u1.len()
            ==> (#[trigger] u1[j]) % (MODULUS as int) == u2[j] % (MODULUS as int),
        forall|j: int| 0 <= j < u1.len()
            ==> (#[trigger] v1[j]) % (MODULUS as int) == v2[j] % (MODULUS as int),
    ensures
        dot_int(u1, v1) % (MODULUS as int) == dot_int(u2, v2) % (MODULUS as int),
    decreases u1.len(),
{
    let m = MODULUS as int;
    if u1.len() == 0 {
    } else {
        let n = u1.len() - 1;
        assert forall|j: int| 0 <= j < n implies
            (#[trigger] u1.drop_last()[j]) % m == u2.drop_last()[j] % m by {
            assert(u1[j] % m == u2[j] % m);
        };
        assert forall|j: int| 0 <= j < n implies
            (#[trigger] v1.drop_last()[j]) % m == v2.drop_last()[j] % m by {
            assert(v1[j] % m == v2[j] % m);
        };
        lemma_dot_congruent(u1.drop_last(), v1.drop_last(), u2.drop_last(), v2.drop_last());
        let d1 = dot_int(u1.drop_last(), v1.drop_last());
        let d2 = dot_int(u2.drop_last(), v2.drop_last());
        assert(u1[n] % m == u2[n] % m);
        assert(v1[n] % m == v2[n] % m);
        lemma_mul_mod_noop_general(u1.last(), v1.last(), m);
        lemma_mul_mod_noop_general(u2.last(), v2.last(), m);
        assert((u1.last() * v1.last()) % m == (u2.last() * v2.last()) % m);
        lemma_add_mod_noop(d1, u1.last() * v1.last(), m);
        lemma_add_mod_noop(d2, u2.last() * v2.last(), m);
    }
}

/// The dot product distributes over an entry-wise sum on the left.
proof fn lemma_dot_add(x: Seq<int>, y: Seq<int>, v: Seq<int>)
    requires
        x.len() == y.len(),
        x.len() == v.len(),
    ensures
        dot_int(seq_add(x, y), v) == dot_int(x, v) + dot_int(y, v),
    decreases x.len(),
{
    if x.len() == 0 {
    } else {
        assert(seq_add(x, y).drop_last() =~= seq_add(x.drop_last(), y.drop_last()));
        lemma_dot_add(x.drop_last(), y.drop_last(), v.drop_last());
        lemma_mul_is_distributive_add_other_way(v.last(), x.last(), y.last());
        assert(seq_add(x, y).last() == x.last() + y.last());
    }
}

/// A common factor moves out of the dot product.
proof fn lemma_dot_scale(s: int, x: Seq<int>, v: Seq<int>)
    requires
        x.len() == v.len(),
    ensures
        dot_int(seq_scale(s, x), v) == s * dot_int(x, v),
    decreases x.len(),
{
    if x.len() == 0 {
    } else {
        assert(seq_scale(s, x).drop_last() =~= seq_scale(s, x.drop_last()));
        lemma_dot_scale(s, x.drop_last(), v.drop_last());
        lemma_mul_is_associative(s, x.last(), v.last());
        lemma_mul_is_distributive_add(
            s,
            dot_int(x.drop_last(), v.drop_last()),
            x.last() * v.last(),
        );
        assert(seq_scale(s, x).last() == s * x.last());
    }
}

/// Exchanging the two summations: dotting u with b * p equals dotting
/// the row vector u * b with p.
proof fn lemma_dot_exchange(u: Seq<int>, b: Seq<Seq<int>>, p: Seq<int>)
    requires
        u.len() == b.len(),
        forall|j: int| 0 <= j < b.len() ==> (#[trigger] b[j]).len() == p.len(),
    ensures
        dot_int(u, mat_vec_int(b, p)) == dot_int(row_times(u, b, p.len()), p),
    decreases u.len(),
{
    let k = p.len() as int;
    if u.len() == 0 {
        assert(forall|kk: int| 0 <= kk < k ==> #[trigger] row_times(u, b, p.len())[kk] == 0);
        lemma_dot_zero(row_times(u, b, p.len()), p);
    } else {
        let n = u.len() - 1;
        let u2 = u.drop_last();
        let b2 = b.drop_last();
        assert(forall|j: int| 0 <= j < b2.len() ==> (#[trigger] b2[j]).len() == p.len());
        lemma_dot_exchange(u2, b2, p);
        assert(mat_vec_int(b, p).drop_last() =~= mat_vec_int(b2, p));
        assert(mat_vec_int(b, p).last() == dot_int(b.last(), p));
        assert(dot_int(u, mat_vec_int(b, p))
            == dot_int(u2, mat_vec_int(b2, p)) + u.last() * dot_int(b.last(), p));

        let rt = row_times(u, b, p.len());
        let rt2 = row_times(u2, b2, p.len());
        let sc = seq_scale(u.last(), b.last());
        assert forall|kk: int| 0 <= kk < k implies
            #[trigger] rt[kk] == seq_add(rt2, sc)[kk] by {
            assert(col(b, kk).drop_last() =~= col(b2, kk));
            assert(col(b, kk).last() == b.last()[kk]);
            assert(dot_int(u, col(b, kk))
                == dot_int(u2, col(b2, kk)) + u.last() * b.last()[kk]);
        };
        assert(rt =~= seq_add(rt2, sc));
        lemma_dot_add(rt2, sc, p);
        lemma_dot_scale(u.last(), b.last(), p);
    }
}

/// Completeness of the probe test: if c agrees with the product a x b modulo
/// the field, then for every probe vector p of matching length, projecting
/// through b and then a gives the same reduced vector as projecting c.
pub proof fn lemma_product_passes_probe(
    a: Seq<Seq<int>>,
    b: Seq<Seq<int>>,
    c: Seq<Seq<int>>,
    p: Seq<int>,
    n: nat,
)
    requires
        is_square(a, n),
        is_square(b, n),
        is_square(c, n),
        p.len() == n,
        is_product_mod(a, b, c),
    ensures
        mat_vec_mod(a, mat_vec_mod(b, p)) == mat_vec_mod(c, p),
{
    let m = MODULUS as int;
    let w_mod = mat_vec_mod(b, p);
    let w_int = mat_vec_int(b, p);
    assert forall|i: int| 0 <= i < n implies
        #[trigger] mat_vec_mod(a, w_mod)[i] == mat_vec_mod(c, p)[i] by {
        assert forall|j: int| 0 <= j < n implies
            (#[trigger] w_mod[j]) % m == w_int[j] % m by {
            lemma_mod_twice(w_int[j], m);
        };
        assert forall|j: int| 0 <= j < n implies
            (#[trigger] a[i][j]) % m == a[i][j] % m by {};
        lemma_dot_congruent(a[i], w_mod, a[i], w_int);
        lemma_dot_exchange(a[i], b, p);
        let rt = row_times(a[i], b, p.len());
        assert forall|kk: int| 0 <= kk < n implies
            (#[trigger] rt[kk]) % m == c[i][kk] % m by {
            assert(rt[kk] == product_entry(a, b, i, kk));
            assert(c[i][kk] % m == product_entry(a, b, i, kk) % m);
        };
        lemma_dot_congruent(rt, p, c[i], p);
        assert(mat_vec_mod(a, w_mod)[i] == dot_int(a[i], w_mod) % m);
        assert(mat_vec_mod(c, p)[i] == dot_int(c[i], p) % m);
    };
    assert(mat_vec_mod(a, mat_vec_mod(b, p)) =~= mat_vec_mod(c, p));
}

/// One-sided error: a probe that disagrees is always right — the claimed
/// product then differs from the true product somewhere, modulo the field.
pub proof fn lemma_reject_is_correct(
    a: Seq<Seq<int>>,
    b: Seq<Seq<int>>,
    c: Seq<Seq<int>>,
    p: Seq<int>,
    n: nat,
)
    requires
        is_square(a, n),
        is_square(b, n),
        is_square(c, n),
        p.len() == n,
        mat_vec_mod(a, mat_vec_mod(b, p)) != mat_vec_mod(c, p),
    ensures
        !is_product_mod(a, b, c),
{
    if is_product_mod(a, b, c) {
        lemma_product_passes_probe(a, b, c, p, n);
        assert(false);
    }
}

} // verus!
