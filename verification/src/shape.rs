//! Shapes, broadcasting and the index arithmetic of row-major tensors.
//!
//! A shape is the sequence of a tensor's extents, outermost axis first. The
//! elements are stored in row-major order: the last axis varies fastest.
//! Two shapes are aligned at their last axes; a shape that is shorter than
//! the other counts as padded with extents of one at the front.

use vstd::prelude::*;

verus! {

/// The number of elements of a tensor of shape `shape`: the product of the
/// extents, one for the empty shape.
pub open spec fn count(shape: Seq<usize>) -> nat
    decreases shape.len(),
{
    if shape.len() == 0 {
        1
    } else {
        count(shape.drop_last()) * (shape.last() as nat)
    }
}

/// The extent of the axis `back` places before the last one, or one where
/// `shape` has no such axis.
pub open spec fn extent_from_end(shape: Seq<usize>, back: int) -> usize {
    if 0 <= back < shape.len() {
        shape[shape.len() - 1 - back]
    } else {
        1
    }
}

/// Whether `a` and `b` can be broadcast against each other: along every
/// axis, counted from the last, the extents are equal or one of them is one.
pub open spec fn compatible(a: Seq<usize>, b: Seq<usize>) -> bool {
    forall|back: int|
        0 <= back ==> {
            let x = #[trigger] extent_from_end(a, back);
            let y = extent_from_end(b, back);
            x == y || x == 1 || y == 1
        }
}

/// The shape that `a` and `b` broadcast to: as long as the longer of the
/// two; along each axis the extent that is not one, if there is such.
pub open spec fn broadcast(a: Seq<usize>, b: Seq<usize>) -> Seq<usize> {
    let rank = if a.len() >= b.len() {
        a.len()
    } else {
        b.len()
    };
    Seq::new(
        rank,
        |i: int|
            {
                let x = extent_from_end(a, rank - 1 - i);
                if x == 1 {
                    extent_from_end(b, rank - 1 - i)
                } else {
                    x
                }
            },
    )
}

/// Whether a tensor of shape `from` can be replicated to shape `to`: `to`
/// has every axis of `from`, and along each of them `from` has the same
/// extent or the extent one.
pub open spec fn broadcasts_to(from: Seq<usize>, to: Seq<usize>) -> bool {
    &&& from.len() <= to.len()
    &&& forall|back: int|
        0 <= back < from.len() ==> {
            let x = #[trigger] extent_from_end(from, back);
            x == extent_from_end(to, back) || x == 1
        }
}

/// The position in a tensor of shape `from` of the element that position
/// `i` of its replica of shape `to` repeats.
///
/// Both positions are row-major. The last coordinate of `i` is `i % n`,
/// where `n` is the last extent of `to`, and `i / n` is the position of the
/// remaining coordinates in the shape without its last axis. Along an axis
/// where `from` has extent one the coordinate becomes zero; the axes that
/// `from` lacks are dropped.
pub open spec fn source_index(from: Seq<usize>, to: Seq<usize>, i: int) -> int
    decreases from.len(),
{
    if from.len() == 0 || to.len() == 0 {
        0
    } else {
        let outer = source_index(from.drop_last(), to.drop_last(), i / (to.last() as int));
        let inner = if from.last() == 1 {
            0
        } else {
            i % (to.last() as int)
        };
        outer * (from.last() as int) + inner
    }
}

/// A shape has elements exactly if none of its extents is zero.
pub proof fn lemma_count_positive(shape: Seq<usize>)
    ensures
        count(shape) > 0 <==> forall|k: int| 0 <= k < shape.len() ==> shape[k] > 0,
    decreases shape.len(),
{
    if shape.len() > 0 {
        let rest = shape.drop_last();
        lemma_count_positive(rest);
        assert(count(shape) == count(rest) * (shape.last() as nat));
        assert(count(shape) > 0 <==> (count(rest) > 0 && shape.last() > 0)) by (nonlinear_arith)
            requires
                count(shape) == count(rest) * (shape.last() as nat),
        ;
        if count(shape) > 0 {
            assert forall|k: int| 0 <= k < shape.len() implies shape[k] > 0 by {
                if k < rest.len() {
                    assert(rest[k] == shape[k]);
                }
            }
        } else if forall|k: int| 0 <= k < shape.len() ==> shape[k] > 0 {
            assert forall|k: int| 0 <= k < rest.len() implies rest[k] > 0 by {
                assert(rest[k] == shape[k]);
            }
        }
    }
}

/// Dropping the last axis of both shapes keeps one a replica of the other.
pub proof fn lemma_broadcasts_to_drop_last(from: Seq<usize>, to: Seq<usize>)
    requires
        broadcasts_to(from, to),
        from.len() > 0,
    ensures
        to.len() > 0,
        from.last() == to.last() || from.last() == 1,
        broadcasts_to(from.drop_last(), to.drop_last()),
{
    assert(extent_from_end(from, 0) == from.last());
    assert(extent_from_end(to, 0) == to.last());
    let f = from.drop_last();
    let t = to.drop_last();
    assert forall|back: int| 0 <= back < f.len() implies ({
        let x = #[trigger] extent_from_end(f, back);
        x == extent_from_end(t, back) || x == 1
    }) by {
        assert(extent_from_end(f, back) == extent_from_end(from, back + 1));
        assert(extent_from_end(t, back) == extent_from_end(to, back + 1));
    }
}

/// A shape that can be replicated to a shape with elements has elements
/// itself, and no more of them.
pub proof fn lemma_broadcasts_to_count(from: Seq<usize>, to: Seq<usize>)
    requires
        broadcasts_to(from, to),
        count(to) > 0,
    ensures
        0 < count(from) <= count(to),
    decreases from.len(),
{
    lemma_count_positive(to);
    if from.len() == 0 {
    } else {
        lemma_broadcasts_to_drop_last(from, to);
        let f = from.drop_last();
        let t = to.drop_last();
        assert(count(to) == count(t) * (to.last() as nat));
        assert(count(t) > 0 && to.last() > 0) by (nonlinear_arith)
            requires
                count(to) == count(t) * (to.last() as nat),
                count(to) > 0,
        ;
        lemma_broadcasts_to_count(f, t);
        assert(0 < count(f) * (from.last() as nat) <= count(t) * (to.last() as nat))
            by (nonlinear_arith)
            requires
                0 < count(f) <= count(t),
                0 < from.last() <= to.last(),
        ;
    }
}

/// Every position of the replica repeats a position of the source.
pub proof fn lemma_source_index_bounds(from: Seq<usize>, to: Seq<usize>, i: int)
    requires
        broadcasts_to(from, to),
        0 <= i < count(to),
    ensures
        0 <= source_index(from, to, i) < count(from),
    decreases from.len(),
{
    if from.len() > 0 {
        lemma_broadcasts_to_drop_last(from, to);
        let f = from.drop_last();
        let t = to.drop_last();
        let n = to.last() as int;
        let m = from.last() as int;
        assert(count(to) == count(t) * (to.last() as nat));
        assert(n > 0) by (nonlinear_arith)
            requires
                0 <= i < count(t) * n,
                n >= 0,
        ;
        lemma_split_position(i, count(t) as int, n);
        lemma_source_index_bounds(f, t, i / n);
        let outer = source_index(f, t, i / n);
        let inner = if m == 1 {
            0
        } else {
            i % n
        };
        assert(0 <= outer * m + inner < count(f) * m) by (nonlinear_arith)
            requires
                0 <= outer < count(f),
                0 <= inner < m,
        ;
    }
}

/// Splitting a row-major position into the position of the outer
/// coordinates and the last coordinate.
pub proof fn lemma_split_position(i: int, outer: int, n: int)
    requires
        0 <= i < outer * n,
        n > 0,
    ensures
        0 <= i / n < outer,
        0 <= i % n < n,
        i == (i / n) * n + i % n,
{
    vstd::arithmetic::div_mod::lemma_fundamental_div_mod(i, n);
    vstd::arithmetic::div_mod::lemma_mod_bound(i, n);
    vstd::arithmetic::div_mod::lemma_div_pos_is_pos(i, n);
    assert(n * (i / n) == (i / n) * n) by (nonlinear_arith);
    assert(i / n < outer) by (nonlinear_arith)
        requires
            i == (i / n) * n + i % n,
            0 <= i % n,
            i < outer * n,
            n > 0,
    ;
}

/// Replicating a tensor to its own shape repeats every element in place.
pub proof fn lemma_source_index_same_shape(shape: Seq<usize>, i: int)
    requires
        0 <= i < count(shape),
    ensures
        source_index(shape, shape, i) == i,
    decreases shape.len(),
{
    if shape.len() > 0 {
        let rest = shape.drop_last();
        let n = shape.last() as int;
        assert(count(shape) == count(rest) * (shape.last() as nat));
        assert(n > 0) by (nonlinear_arith)
            requires
                0 <= i < count(rest) * n,
                n >= 0,
        ;
        lemma_split_position(i, count(rest) as int, n);
        lemma_source_index_same_shape(rest, i / n);
        if n == 1 {
            assert(i % n == 0);
        }
    }
}

/// Each of two compatible shapes can be replicated to their broadcast shape.
pub proof fn lemma_broadcast_covers(a: Seq<usize>, b: Seq<usize>)
    requires
        compatible(a, b),
    ensures
        broadcasts_to(a, broadcast(a, b)),
        broadcasts_to(b, broadcast(a, b)),
{
    let out = broadcast(a, b);
    let rank = out.len() as int;
    assert forall|back: int| 0 <= back < a.len() implies ({
        let x = #[trigger] extent_from_end(a, back);
        x == extent_from_end(out, back) || x == 1
    }) by {
        assert(extent_from_end(out, back) == out[rank - 1 - back]);
    }
    assert forall|back: int| 0 <= back < b.len() implies ({
        let y = #[trigger] extent_from_end(b, back);
        y == extent_from_end(out, back) || y == 1
    }) by {
        assert(extent_from_end(out, back) == out[rank - 1 - back]);
        let x = extent_from_end(a, back);
        assert(x == extent_from_end(b, back) || x == 1 || extent_from_end(b, back) == 1);
    }
}

/// The coordinate along the axis `axis` of the row-major position `i` in a
/// tensor of shape `shape`: the position, divided by the number of elements
/// that one step along the axis skips, modulo the extent of the axis.
pub open spec fn coordinate(shape: Seq<usize>, i: int, axis: int) -> int {
    (i / (count(shape.skip(axis + 1)) as int)) % (shape[axis] as int)
}

/// The coordinates along all axes but the last are those of the position
/// without its last coordinate, in the shape without its last axis.
proof fn lemma_coordinate_drop_last(shape: Seq<usize>, i: int, axis: int)
    requires
        0 <= axis < shape.len() - 1,
        0 <= i,
        count(shape) > 0,
    ensures
        coordinate(shape, i, axis) == coordinate(
            shape.drop_last(),
            i / (shape.last() as int),
            axis,
        ),
{
    let rest = shape.drop_last();
    let n = shape.last() as int;
    let tail = shape.skip(axis + 1);
    let inner = rest.skip(axis + 1);
    assert(tail.drop_last() =~= inner);
    assert(tail.last() == shape.last());
    assert(count(tail) == count(inner) * (shape.last() as nat));
    assert(rest[axis] == shape[axis]);
    lemma_count_positive(shape);
    assert forall|k: int| 0 <= k < inner.len() implies inner[k] > 0 by {
        assert(inner[k] == shape[k + axis + 1]);
    }
    lemma_count_positive(inner);
    assert(count(inner) * n == n * count(inner)) by (nonlinear_arith);
    vstd::arithmetic::div_mod::lemma_div_denominator(i, n, count(inner) as int);
}

/// Replication along the axes, one by one: along each axis of `from`, an
/// element of the replica repeats the element of `from` with the same
/// coordinate, or with the coordinate zero where `from` has extent one.
pub proof fn lemma_source_index_coordinates(from: Seq<usize>, to: Seq<usize>, i: int, back: int)
    requires
        broadcasts_to(from, to),
        0 <= i < count(to),
        0 <= back < from.len(),
    ensures
        coordinate(from, source_index(from, to, i), from.len() - 1 - back) == if extent_from_end(
            from,
            back,
        ) == 1 {
            0
        } else {
            coordinate(to, i, to.len() - 1 - back)
        },
    decreases back,
{
    lemma_broadcasts_to_drop_last(from, to);
    lemma_broadcasts_to_count(from, to);
    lemma_source_index_bounds(from, to, i);
    let f = from.drop_last();
    let t = to.drop_last();
    let n = to.last() as int;
    let m = from.last() as int;
    assert(count(to) == count(t) * (to.last() as nat));
    assert(count(from) == count(f) * (from.last() as nat));
    assert(n > 0) by (nonlinear_arith)
        requires
            0 <= i < count(t) * n,
            n >= 0,
    ;
    assert(m > 0);
    lemma_split_position(i, count(t) as int, n);
    lemma_source_index_bounds(f, t, i / n);
    let outer = source_index(f, t, i / n);
    let inner: int = if m == 1 {
        0
    } else {
        i % n
    };
    let p = source_index(from, to, i);
    assert(p == outer * m + inner);
    vstd::arithmetic::div_mod::lemma_fundamental_div_mod_converse(p, m, outer, inner);
    if back == 0 {
        assert(from.skip(from.len() as int) =~= Seq::<usize>::empty());
        assert(to.skip(to.len() as int) =~= Seq::<usize>::empty());
        assert(extent_from_end(from, 0) == from.last());
        assert(p / 1 == p && i / 1 == i);
        assert(coordinate(from, p, from.len() - 1) == p % m);
        assert(coordinate(to, i, to.len() - 1) == i % n);
    } else {
        lemma_coordinate_drop_last(from, p, from.len() - 1 - back);
        lemma_coordinate_drop_last(to, i, to.len() - 1 - back);
        lemma_source_index_coordinates(f, t, i / n, back - 1);
        assert(extent_from_end(f, back - 1) == extent_from_end(from, back));
    }
}

/// The product of the first `k` extents only grows with `k` when no extent
/// is zero.
proof fn lemma_count_prefix(shape: Seq<usize>, k: int)
    requires
        0 <= k <= shape.len(),
        forall|j: int| 0 <= j < shape.len() ==> shape[j] > 0,
    ensures
        0 < count(shape.take(k)) <= count(shape),
    decreases shape.len() - k,
{
    if k == shape.len() {
        assert(shape.take(k) =~= shape);
        lemma_count_positive(shape);
    } else {
        lemma_count_prefix(shape, k + 1);
        let longer = shape.take(k + 1);
        assert(longer.drop_last() =~= shape.take(k));
        assert(longer.last() == shape[k]);
        assert(count(longer) == count(shape.take(k)) * (shape[k] as nat));
        assert(0 < count(shape.take(k)) <= count(longer)) by (nonlinear_arith)
            requires
                count(longer) == count(shape.take(k)) * (shape[k] as nat),
                count(longer) > 0,
                shape[k] > 0,
        ;
    }
}

/// Returns the number of elements of a tensor of shape `shape`, or `None`
/// where that number does not fit in `usize`.
pub fn element_count(shape: &[usize]) -> (r: Option<usize>)
    ensures
        match r {
            Some(n) => n == count(shape@),
            None => count(shape@) > usize::MAX,
        },
{
    let mut k: usize = 0;
    while k < shape.len()
        invariant
            k <= shape.len(),
            forall|j: int| 0 <= j < k ==> shape@[j] > 0,
        decreases shape.len() - k,
    {
        if shape[k] == 0 {
            proof {
                lemma_count_positive(shape@);
            }
            return Some(0);
        }
        k += 1;
    }
    let mut total: usize = 1;
    let mut k: usize = 0;
    proof {
        assert(shape@.take(0) =~= Seq::<usize>::empty());
    }
    while k < shape.len()
        invariant
            k <= shape.len(),
            forall|j: int| 0 <= j < shape.len() ==> shape@[j] > 0,
            total == count(shape@.take(k as int)),
        decreases shape.len() - k,
    {
        proof {
            let longer = shape@.take(k + 1);
            assert(longer.drop_last() =~= shape@.take(k as int));
            assert(longer.last() == shape@[k as int]);
            lemma_count_prefix(shape@, k + 1);
        }
        match total.checked_mul(shape[k]) {
            Some(next) => {
                total = next;
            },
            None => {
                return None;
            },
        }
        k += 1;
    }
    proof {
        assert(shape@.take(k as int) =~= shape@);
    }
    Some(total)
}

/// Returns a copy of `shape`.
pub fn copy_shape(shape: &[usize]) -> (r: Vec<usize>)
    ensures
        r@ == shape@,
{
    let mut dims: Vec<usize> = Vec::with_capacity(shape.len());
    let mut k: usize = 0;
    while k < shape.len()
        invariant
            k <= shape.len(),
            dims@ == shape@.take(k as int),
        decreases shape.len() - k,
    {
        dims.push(shape[k]);
        proof {
            assert(shape@.take(k + 1) =~= shape@.take(k as int).push(shape@[k as int]));
        }
        k += 1;
    }
    proof {
        assert(shape@.take(k as int) =~= shape@);
    }
    dims
}

/// Returns the shape that `a` and `b` broadcast to, or `None` where they are
/// not compatible.
pub fn broadcast_shape(a: &[usize], b: &[usize]) -> (r: Option<Vec<usize>>)
    ensures
        match r {
            Some(shape) => compatible(a@, b@) && shape@ == broadcast(a@, b@),
            None => !compatible(a@, b@),
        },
{
    let rank = if a.len() >= b.len() {
        a.len()
    } else {
        b.len()
    };
    let mut out: Vec<usize> = Vec::with_capacity(rank);
    let mut i: usize = 0;
    while i < rank
        invariant
            i <= rank,
            rank == broadcast(a@, b@).len(),
            a.len() <= rank,
            b.len() <= rank,
            out.len() == i,
            forall|j: int| 0 <= j < i ==> out@[j] == broadcast(a@, b@)[j],
            forall|j: int|
                0 <= j < i ==> {
                    let x = #[trigger] extent_from_end(a@, rank - 1 - j);
                    let y = extent_from_end(b@, rank - 1 - j);
                    x == y || x == 1 || y == 1
                },
        decreases rank - i,
    {
        let back = rank - 1 - i;
        let x = if back < a.len() {
            a[a.len() - 1 - back]
        } else {
            1
        };
        let y = if back < b.len() {
            b[b.len() - 1 - back]
        } else {
            1
        };
        assert(x == extent_from_end(a@, back as int));
        assert(y == extent_from_end(b@, back as int));
        if x != y && x != 1 && y != 1 {
            return None;
        }
        out.push(
            if x == 1 {
                y
            } else {
                x
            },
        );
        i += 1;
    }
    proof {
        assert forall|back: int| 0 <= back implies ({
            let x = #[trigger] extent_from_end(a@, back);
            let y = extent_from_end(b@, back);
            x == y || x == 1 || y == 1
        }) by {
            if back < rank {
                let j = rank - 1 - back;
                assert(extent_from_end(a@, rank - 1 - j) == extent_from_end(a@, back));
            }
        }
        assert(out@ =~= broadcast(a@, b@));
    }
    Some(out)
}

/// Tells whether a tensor of shape `from` can be replicated to shape `to`.
pub fn can_broadcast_to(from: &[usize], to: &[usize]) -> (r: bool)
    ensures
        r == broadcasts_to(from@, to@),
{
    if from.len() > to.len() {
        return false;
    }
    let mut back: usize = 0;
    while back < from.len()
        invariant
            back <= from.len() <= to.len(),
            forall|j: int|
                0 <= j < back ==> {
                    let x = #[trigger] extent_from_end(from@, j);
                    x == extent_from_end(to@, j) || x == 1
                },
        decreases from.len() - back,
    {
        let x = from[from.len() - 1 - back];
        let y = to[to.len() - 1 - back];
        assert(x == extent_from_end(from@, back as int));
        assert(y == extent_from_end(to@, back as int));
        if x != y && x != 1 {
            return false;
        }
        back += 1;
    }
    true
}

/// Returns the position in a tensor of shape `from` of the element that
/// position `i` of its replica of shape `to` repeats.
pub fn source_offset(from: &[usize], to: &[usize], i: usize) -> (r: usize)
    requires
        broadcasts_to(from@, to@),
        i < count(to@),
        count(from@) <= usize::MAX,
    ensures
        r == source_index(from@, to@, i as int),
        r < count(from@),
{
    let mut rest: usize = i;
    let mut stride: usize = 1;
    let mut offset: usize = 0;
    let mut back: usize = 0;
    proof {
        assert(from@.take(from.len() as int) =~= from@);
        assert(to@.take(to.len() as int) =~= to@);
        lemma_broadcasts_to_count(from@, to@);
        lemma_source_index_bounds(from@, to@, i as int);
    }
    while back < from.len()
        invariant
            back <= from.len() <= to.len(),
            count(from@) <= usize::MAX,
            broadcasts_to(from@.take(from.len() - back), to@.take(to.len() - back)),
            rest < count(to@.take(to.len() - back)),
            source_index(from@, to@, i as int) == source_index(
                from@.take(from.len() - back),
                to@.take(to.len() - back),
                rest as int,
            ) * stride + offset,
            stride * count(from@.take(from.len() - back)) == count(from@),
            count(from@.take(from.len() - back)) > 0,
            offset < stride,
        decreases from.len() - back,
    {
        let n = to[to.len() - 1 - back];
        let m = from[from.len() - 1 - back];
        proof {
            let f = from@.take(from.len() - back);
            let t = to@.take(to.len() - back);
            let f1 = from@.take(from.len() - back - 1);
            let t1 = to@.take(to.len() - back - 1);
            assert(f.drop_last() =~= f1);
            assert(t.drop_last() =~= t1);
            assert(f.last() == m);
            assert(t.last() == n);
            lemma_broadcasts_to_drop_last(f, t);
            assert(count(t) == count(t1) * (n as nat));
            assert(count(f) == count(f1) * (m as nat));
            assert(n > 0) by (nonlinear_arith)
                requires
                    0 <= rest < count(t1) * n,
                    n >= 0,
            ;
            lemma_split_position(rest as int, count(t1) as int, n as int);
            lemma_source_index_bounds(f1, t1, rest as int / n as int);
            let outer = source_index(f1, t1, rest as int / n as int);
            let inner: int = if m == 1 {
                0
            } else {
                rest as int % n as int
            };
            assert(source_index(f, t, rest as int) == outer * m + inner);
            assert((outer * m + inner) * stride + offset == outer * (stride * m) + (offset + inner
                * stride)) by (nonlinear_arith);
            assert(count(f1) > 0 && m > 0 && (stride * m) * count(f1) == count(from@))
                by (nonlinear_arith)
                requires
                    count(f) == count(f1) * (m as nat),
                    count(f) > 0,
                    stride * count(f) == count(from@),
            ;
            assert(stride * m <= count(from@)) by (nonlinear_arith)
                requires
                    (stride * m) * count(f1) == count(from@),
                    count(f1) > 0,
                    stride * m >= 0,
            ;
            assert(offset + inner * stride < stride * m) by (nonlinear_arith)
                requires
                    0 <= inner < m,
                    0 <= offset < stride,
            ;
        }
        let inner = rest % n;
        rest = rest / n;
        if m != 1 {
            offset = offset + inner * stride;
        }
        stride = stride * m;
        back += 1;
    }
    proof {
        assert(from@.take(0).len() == 0);
    }
    offset
}

} // verus!
