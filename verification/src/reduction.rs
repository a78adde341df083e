//! Reducing a gradient to the shape of an operand.
//!
//! When an operand is broadcast, each of its elements is repeated at several
//! positions of the result. The gradient of the operand is therefore, for
//! each of its elements, the sum of the gradient of the result over the
//! positions that repeat it.

use crate::scalar::{
    lemma_sum_associative, lemma_sum_commutative, lemma_sum_distributes, lemma_zero_annihilates,
    lemma_zero_is_identity, obeys_semiring_laws, Scalar,
};
use crate::shape::{
    broadcasts_to, count, lemma_broadcasts_to_drop_last,
    lemma_source_index_bounds, lemma_split_position, source_index, source_offset,
};
use crate::tensor::Tensor;
use vstd::prelude::*;

verus! {

/// The sum of those among the first `n` elements of `g` that repeat
/// position `j` of the operand, added to zero in order of increasing
/// position. `g` has shape `to`, the operand has shape `from`.
pub open spec fn reduced_sum<T: Scalar>(
    g: Seq<T>,
    from: Seq<usize>,
    to: Seq<usize>,
    n: nat,
    j: int,
) -> T
    decreases n,
{
    if n == 0 {
        T::zero_value()
    } else {
        let before = reduced_sum(g, from, to, (n - 1) as nat, j);
        if source_index(from, to, n - 1) == j {
            before.sum(g[n - 1])
        } else {
            before
        }
    }
}

/// The elements of the reduction of `g`, of shape `to`, to shape `from`.
pub open spec fn reduced<T: Scalar>(g: Seq<T>, from: Seq<usize>, to: Seq<usize>) -> Seq<T> {
    Seq::new(count(from), |j: int| reduced_sum(g, from, to, count(to), j))
}

/// The elements of the replica of shape `to` of a tensor `x` of shape
/// `from`.
pub open spec fn replicated<T>(x: Seq<T>, from: Seq<usize>, to: Seq<usize>) -> Seq<T> {
    Seq::new(count(to), |i: int| x[source_index(from, to, i)])
}

/// The inner product of the first `n` elements of `u` and of `v`: the
/// products of corresponding elements, added to zero in order of increasing
/// position.
pub open spec fn inner_product<T: Scalar>(u: Seq<T>, v: Seq<T>, n: nat) -> T
    decreases n,
{
    if n == 0 {
        T::zero_value()
    } else {
        inner_product(u, v, (n - 1) as nat).sum(u[n - 1].product(v[n - 1]))
    }
}

/// Sums `src` over the axes along which a tensor of shape `dest_shape` was
/// replicated to give the shape of `src`, and returns the sums as a tensor
/// of shape `dest_shape`.
pub fn reduce<T: Scalar>(dest_shape: &[usize], src: &Tensor<T>) -> (r: Tensor<T>)
    requires
        src.wf(),
        broadcasts_to(dest_shape@, src@.shape),
        count(dest_shape@) <= usize::MAX,
    ensures
        r.wf(),
        r@.shape == dest_shape@,
        r@.data == reduced(src@.data, dest_shape@, src@.shape),
{
    let mut out = Tensor::<T>::zeros(dest_shape);
    let n = src.len();
    let mut i: usize = 0;
    while i < n
        invariant
            i <= n,
            n == count(src@.shape),
            src.wf(),
            broadcasts_to(dest_shape@, src@.shape),
            count(dest_shape@) <= usize::MAX,
            out.wf(),
            out@.shape == dest_shape@,
            forall|j: int|
                0 <= j < out@.data.len() ==> out@.data[j] == reduced_sum(
                    src@.data,
                    dest_shape@,
                    src@.shape,
                    i as nat,
                    j,
                ),
        decreases n - i,
    {
        let d = source_offset(dest_shape, src.shape(), i);
        let v = out.get(d).plus(src.get(i));
        out.set(d, v);
        i += 1;
    }
    proof {
        assert(out@.data =~= reduced(src@.data, dest_shape@, src@.shape));
    }
    out
}

/// The inner product with a tensor of zeros is zero.
proof fn lemma_inner_product_of_zeros<T: Scalar>(u: Seq<T>, v: Seq<T>, n: nat)
    requires
        obeys_semiring_laws::<T>(),
        forall|i: int| 0 <= i < n ==> u[i] == T::zero_value(),
    ensures
        inner_product(u, v, n) == T::zero_value(),
    decreases n,
{
    if n > 0 {
        lemma_inner_product_of_zeros(u, v, (n - 1) as nat);
        lemma_zero_annihilates(v[n - 1]);
        lemma_zero_is_identity(T::zero_value());
    }
}

/// The inner product of the first `n` elements depends on those alone.
proof fn lemma_inner_product_prefix<T: Scalar>(u: Seq<T>, w: Seq<T>, v: Seq<T>, n: nat)
    requires
        forall|i: int| 0 <= i < n ==> u[i] == w[i],
    ensures
        inner_product(u, v, n) == inner_product(w, v, n),
    decreases n,
{
    if n > 0 {
        lemma_inner_product_prefix(u, w, v, (n - 1) as nat);
    }
}

/// Adding `c` to the element at position `d` adds `c` times the other
/// operand's element at `d` to the inner product.
proof fn lemma_inner_product_point_update<T: Scalar>(
    u: Seq<T>,
    w: Seq<T>,
    v: Seq<T>,
    n: nat,
    d: int,
    c: T,
)
    requires
        obeys_semiring_laws::<T>(),
        0 <= d < n,
        w[d] == u[d].sum(c),
        forall|i: int| 0 <= i < n && i != d ==> w[i] == u[i],
    ensures
        inner_product(w, v, n) == inner_product(u, v, n).sum(c.product(v[d])),
    decreases n,
{
    let last = n - 1;
    let before = inner_product(u, v, last as nat);
    let extra = c.product(v[d]);
    if d == last {
        lemma_inner_product_prefix(w, u, v, last as nat);
        lemma_sum_distributes(u[d], c, v[d]);
        lemma_sum_associative(before, u[d].product(v[d]), extra);
    } else {
        lemma_inner_product_point_update(u, w, v, last as nat, d, c);
        let term = u[last].product(v[last]);
        lemma_sum_associative(before, extra, term);
        lemma_sum_commutative(extra, term);
        lemma_sum_associative(before, term, extra);
    }
}

/// The adjoint law, for the first `n` elements of the gradient.
proof fn lemma_adjoint_prefix<T: Scalar>(
    g: Seq<T>,
    x: Seq<T>,
    from: Seq<usize>,
    to: Seq<usize>,
    n: nat,
)
    requires
        obeys_semiring_laws::<T>(),
        broadcasts_to(from, to),
        n <= count(to),
    ensures
        inner_product(g, replicated(x, from, to), n) == inner_product(
            Seq::new(count(from), |j: int| reduced_sum(g, from, to, n, j)),
            x,
            count(from),
        ),
    decreases n,
{
    let sums = Seq::new(count(from), |j: int| reduced_sum(g, from, to, n, j));
    if n == 0 {
        lemma_inner_product_of_zeros(sums, x, count(from));
    } else {
        let last = (n - 1) as nat;
        let before = Seq::new(count(from), |j: int| reduced_sum(g, from, to, last, j));
        lemma_adjoint_prefix(g, x, from, to, last);
        lemma_source_index_bounds(from, to, last as int);
        let d = source_index(from, to, last as int);
        lemma_inner_product_point_update(before, sums, x, count(from), d, g[last as int]);
    }
}

/// Reduction is the adjoint of broadcasting: for a gradient `g` of shape
/// `to` and a tensor `x` of shape `from`, the inner product of `g` with the
/// replica of `x` equals the inner product of the reduction of `g` with `x`,
/// provided that sums may be regrouped and reordered.
pub proof fn lemma_reduce_is_adjoint_of_broadcast<T: Scalar>(
    g: Seq<T>,
    x: Seq<T>,
    from: Seq<usize>,
    to: Seq<usize>,
)
    requires
        obeys_semiring_laws::<T>(),
        broadcasts_to(from, to),
        g.len() == count(to),
        x.len() == count(from),
    ensures
        inner_product(g, replicated(x, from, to), count(to)) == inner_product(
            reduced(g, from, to),
            x,
            count(from),
        ),
{
    lemma_adjoint_prefix(g, x, from, to, count(to));
    assert(reduced(g, from, to) =~= Seq::new(
        count(from),
        |j: int| reduced_sum(g, from, to, count(to), j),
    ));
}

/// `v` added `k` times to zero, one after the other.
pub open spec fn repeated<T: Scalar>(v: T, k: nat) -> T
    decreases k,
{
    if k == 0 {
        T::zero_value()
    } else {
        repeated(v, (k - 1) as nat).sum(v)
    }
}

/// How many of the first `n` positions of the replica of shape `to` repeat
/// position `j` of a tensor of shape `from`.
pub open spec fn occurrences(from: Seq<usize>, to: Seq<usize>, n: nat, j: int) -> nat
    decreases n,
{
    if n == 0 {
        0
    } else {
        occurrences(from, to, (n - 1) as nat, j) + if source_index(from, to, n - 1) == j {
            1nat
        } else {
            0nat
        }
    }
}

/// How often each element of a tensor of shape `from` occurs in its replica
/// of shape `to`: the product of the extents of `to` along the axes that
/// `from` lacks or along which it has extent one.
pub open spec fn replication(from: Seq<usize>, to: Seq<usize>) -> nat
    decreases from.len(),
{
    if from.len() == 0 || to.len() == 0 {
        count(to)
    } else {
        replication(from.drop_last(), to.drop_last()) * if from.last() == 1 {
            to.last() as nat
        } else {
            1nat
        }
    }
}

/// The reduction of a replica adds each element as often as it occurs.
proof fn lemma_reduced_sum_of_replica<T: Scalar>(
    x: Seq<T>,
    from: Seq<usize>,
    to: Seq<usize>,
    n: nat,
    j: int,
)
    requires
        n <= count(to),
    ensures
        reduced_sum(replicated(x, from, to), from, to, n, j) == repeated(
            x[j],
            occurrences(from, to, n, j),
        ),
    decreases n,
{
    if n > 0 {
        lemma_reduced_sum_of_replica(x, from, to, (n - 1) as nat, j);
    }
}

/// Every position of a replica repeats the only element of a tensor
/// without axes.
proof fn lemma_occurrences_of_scalar(to: Seq<usize>, n: nat)
    ensures
        occurrences(Seq::<usize>::empty(), to, n, 0) == n,
    decreases n,
{
    if n > 0 {
        lemma_occurrences_of_scalar(to, (n - 1) as nat);
    }
}

/// Among the positions `q * n`, ..., `q * n + r - 1` of the replica, where
/// `n` is the last extent of `to`, position `j` is repeated by all of them,
/// by one of them or by none: by none unless the outer coordinates `q`
/// repeat the outer coordinates of `j`; else by all where `from` has the
/// last extent one, and else by the one with the last coordinate of `j`.
proof fn lemma_occurrences_in_block(from: Seq<usize>, to: Seq<usize>, q: int, r: int, j: int)
    requires
        broadcasts_to(from, to),
        from.len() > 0,
        0 <= j < count(from),
        0 <= q < count(to.drop_last()),
        0 <= r <= to.last(),
    ensures
        occurrences(from, to, (q * to.last() + r) as nat, j) == occurrences(
            from,
            to,
            (q * to.last()) as nat,
            j,
        ) + if source_index(from.drop_last(), to.drop_last(), q) == j / (from.last() as int) {
            if from.last() == 1 {
                r
            } else if r > j % (from.last() as int) {
                1
            } else {
                0
            }
        } else {
            0
        },
    decreases r,
{
    lemma_broadcasts_to_drop_last(from, to);
    let n = to.last() as int;
    let m = from.last() as int;
    assert(q * n >= 0) by (nonlinear_arith)
        requires
            q >= 0,
            n >= 0,
    ;
    if r > 0 {
        lemma_occurrences_in_block(from, to, q, r - 1, j);
        let p = q * n + r - 1;
        let f = from.drop_last();
        let t = to.drop_last();
        assert(count(from) == count(f) * (from.last() as nat));
        assert(m > 0) by (nonlinear_arith)
            requires
                0 <= j < count(f) * m,
                m >= 0,
        ;
        vstd::arithmetic::div_mod::lemma_fundamental_div_mod_converse(p, n, q, r - 1);
        vstd::arithmetic::div_mod::lemma_fundamental_div_mod(j, m);
        vstd::arithmetic::div_mod::lemma_mod_bound(j, m);
        let outer = source_index(f, t, q);
        let inner: int = if m == 1 {
            0
        } else {
            r - 1
        };
        assert(source_index(from, to, p) == outer * m + inner);
        assert(m * (j / m) == (j / m) * m) by (nonlinear_arith);
        if outer * m + inner == j {
            vstd::arithmetic::div_mod::lemma_fundamental_div_mod_converse(j, m, outer, inner);
        }
        if outer == j / m && inner == j % m {
            assert(outer * m + inner == j);
        }
    }
}

/// Among the first `q` blocks of the replica, each as long as the last
/// extent of `to`, position `j` occurs as often as its outer coordinates
/// occur among the first `q` positions of the replica without its last
/// axis, times the number of its occurrences in a block.
proof fn lemma_occurrences_in_blocks(from: Seq<usize>, to: Seq<usize>, q: int, j: int)
    requires
        broadcasts_to(from, to),
        from.len() > 0,
        0 <= j < count(from),
        0 <= q <= count(to.drop_last()),
    ensures
        q * to.last() >= 0,
        occurrences(from, to, (q * to.last()) as nat, j) == occurrences(
            from.drop_last(),
            to.drop_last(),
            q as nat,
            j / (from.last() as int),
        ) * if from.last() == 1 {
            to.last() as nat
        } else {
            1nat
        },
    decreases q,
{
    lemma_broadcasts_to_drop_last(from, to);
    let n = to.last() as int;
    let m = from.last() as int;
    let f = from.drop_last();
    let t = to.drop_last();
    let c: int = if m == 1 {
        n
    } else {
        1
    };
    assert(q * n >= 0) by (nonlinear_arith)
        requires
            q >= 0,
            n >= 0,
    ;
    if q > 0 {
        lemma_occurrences_in_blocks(from, to, q - 1, j);
        lemma_occurrences_in_block(from, to, q - 1, n, j);
        assert((q - 1) * n + n == q * n) by (nonlinear_arith);
        assert(count(from) == count(f) * (from.last() as nat));
        assert(m > 0) by (nonlinear_arith)
            requires
                0 <= j < count(f) * m,
                m >= 0,
        ;
        vstd::arithmetic::div_mod::lemma_mod_bound(j, m);
        let before = occurrences(f, t, (q - 1) as nat, j / m);
        let hit: int = if source_index(f, t, q - 1) == j / m {
            1
        } else {
            0
        };
        assert(occurrences(f, t, q as nat, j / m) == before + hit);
        assert((before + hit) * c == before * c + hit * c) by (nonlinear_arith);
        assert(hit * c == if hit == 1 {
            c
        } else {
            0
        }) by (nonlinear_arith)
            requires
                hit == 0 || hit == 1,
        ;
        if m != 1 {
            assert(n == m);
            assert(n > j % m);
        }
        assert(occurrences(from, to, (q * n) as nat, j) == occurrences(
            from,
            to,
            ((q - 1) * n) as nat,
            j,
        ) + hit * c);
        assert(occurrences(from, to, ((q - 1) * n) as nat, j) == before * c);
    } else {
        assert(q * n == 0) by (nonlinear_arith)
            requires
                q == 0,
        ;
        assert(occurrences(f, t, 0, j / m) == 0);
        assert(0 * c == 0);
    }
}

/// Each element of a tensor occurs in its replica as often as the axes
/// along which it is replicated count.
pub proof fn lemma_occurrences_is_replication(from: Seq<usize>, to: Seq<usize>, j: int)
    requires
        broadcasts_to(from, to),
        0 <= j < count(from),
    ensures
        occurrences(from, to, count(to), j) == replication(from, to),
    decreases from.len(),
{
    if from.len() == 0 {
        assert(from =~= Seq::<usize>::empty());
        lemma_occurrences_of_scalar(to, count(to));
    } else {
        lemma_broadcasts_to_drop_last(from, to);
        let f = from.drop_last();
        let t = to.drop_last();
        let m = from.last() as int;
        assert(count(from) == count(f) * (from.last() as nat));
        assert(count(to) == count(t) * (to.last() as nat));
        assert(m > 0) by (nonlinear_arith)
            requires
                0 <= j < count(f) * m,
                m >= 0,
        ;
        lemma_split_position(j, count(f) as int, m);
        lemma_occurrences_in_blocks(from, to, count(t) as int, j);
        lemma_occurrences_is_replication(f, t, j / m);
    }
}

/// A shape that a tensor is replicated to counts as many elements as the
/// tensor times the number of occurrences of each.
pub proof fn lemma_count_of_replica(from: Seq<usize>, to: Seq<usize>)
    requires
        broadcasts_to(from, to),
    ensures
        count(to) == count(from) * replication(from, to),
    decreases from.len(),
{
    if from.len() > 0 {
        lemma_broadcasts_to_drop_last(from, to);
        let f = from.drop_last();
        let t = to.drop_last();
        lemma_count_of_replica(f, t);
        let m = from.last() as nat;
        let n = to.last() as nat;
        let c: nat = if m == 1 {
            n
        } else {
            1
        };
        assert(count(from) == count(f) * m);
        assert(count(to) == count(t) * n);
        assert(replication(from, to) == replication(f, t) * c);
        assert(m * c == n) by (nonlinear_arith)
            requires
                (m == 1 && c == n) || (m == n && c == 1),
        ;
        assert((count(f) * m) * (replication(f, t) * c) == (count(f) * replication(f, t)) * (m
            * c)) by (nonlinear_arith);
    } else {
        assert(count(from) == 1);
        assert(replication(from, to) == count(to));
    }
}

/// Reducing the replica of a tensor gives each element added to zero as
/// often as it occurs in the replica. This holds of every number type.
pub proof fn lemma_reduce_of_replica<T: Scalar>(
    x: Seq<T>,
    from: Seq<usize>,
    to: Seq<usize>,
    j: int,
)
    requires
        broadcasts_to(from, to),
        x.len() == count(from),
        0 <= j < count(from),
    ensures
        reduced(replicated(x, from, to), from, to)[j] == repeated(x[j], replication(from, to)),
        count(to) == count(from) * replication(from, to),
{
    lemma_reduced_sum_of_replica(x, from, to, count(to), j);
    lemma_occurrences_is_replication(from, to, j);
    lemma_count_of_replica(from, to);
}

} // verus!
