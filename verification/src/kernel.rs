//! The numeric kernels: elementwise product under broadcasting, and the
//! product of two matrices.

use crate::scalar::Scalar;
use crate::shape::{broadcasts_to, count, lemma_split_position, source_index, source_offset};
use crate::tensor::{elementwise_sum, Tensor, TensorView};
use vstd::prelude::*;

verus! {

/// The elements of the product of `a` and `b`, each replicated to shape
/// `shape`.
pub open spec fn broadcast_product<T: Scalar>(
    a: TensorView<T>,
    b: TensorView<T>,
    shape: Seq<usize>,
) -> Seq<T> {
    Seq::new(
        count(shape),
        |i: int|
            a.data[source_index(a.shape, shape, i)].product(
                b.data[source_index(b.shape, shape, i)],
            ),
    )
}

/// Whether `m` is a matrix: a tensor of rank two.
pub open spec fn is_matrix<T>(m: TensorView<T>) -> bool {
    m.wf() && m.shape.len() == 2
}

/// The number of rows of `m`, or of its transpose where `transposed`.
pub open spec fn rows<T>(m: TensorView<T>, transposed: bool) -> int {
    if transposed {
        m.shape[1] as int
    } else {
        m.shape[0] as int
    }
}

/// The number of columns of `m`, or of its transpose where `transposed`.
pub open spec fn cols<T>(m: TensorView<T>, transposed: bool) -> int {
    if transposed {
        m.shape[0] as int
    } else {
        m.shape[1] as int
    }
}

/// The entry in row `i` and column `j` of `m`, or of its transpose where
/// `transposed`.
pub open spec fn entry<T>(m: TensorView<T>, transposed: bool, i: int, j: int) -> T {
    if transposed {
        m.data[j * m.shape[1] + i]
    } else {
        m.data[i * m.shape[1] + j]
    }
}

/// The inner product of the first `k` entries of row `i` of `a` with those
/// of column `j` of `b`, added to zero in order of increasing position.
/// Each matrix is read transposed where its flag is set.
pub open spec fn dot<T: Scalar>(
    a: TensorView<T>,
    a_transposed: bool,
    b: TensorView<T>,
    b_transposed: bool,
    i: int,
    j: int,
    k: nat,
) -> T
    decreases k,
{
    if k == 0 {
        T::zero_value()
    } else {
        dot(a, a_transposed, b, b_transposed, i, j, (k - 1) as nat).sum(
            entry(a, a_transposed, i, k - 1).product(entry(b, b_transposed, k - 1, j)),
        )
    }
}

/// The elements, in row-major order, of the product of the matrices `a` and
/// `b`, each read transposed where its flag is set.
pub open spec fn matrix_product<T: Scalar>(
    a: TensorView<T>,
    a_transposed: bool,
    b: TensorView<T>,
    b_transposed: bool,
) -> Seq<T> {
    let n = cols(b, b_transposed);
    Seq::new(
        (rows(a, a_transposed) * n) as nat,
        |p: int|
            dot(a, a_transposed, b, b_transposed, p / n, p % n, cols(a, a_transposed) as nat),
    )
}

/// A shape of two extents counts their product.
pub proof fn lemma_count_matrix(shape: Seq<usize>)
    requires
        shape.len() == 2,
    ensures
        count(shape) == shape[0] * shape[1],
{
    let outer = shape.drop_last();
    assert(outer.drop_last().len() == 0);
    assert(count(outer.drop_last()) == 1);
    assert(count(outer) == 1 * (outer.last() as nat));
    assert(outer.last() == shape[0]);
    assert(count(shape) == count(outer) * (shape.last() as nat));
}

/// Stores in `out` the elementwise product of `a` and `b`, each replicated
/// to the shape of `out`.
pub fn multiply_into<T: Scalar>(out: &mut Tensor<T>, a: &Tensor<T>, b: &Tensor<T>)
    requires
        old(out).wf(),
        a.wf(),
        b.wf(),
        broadcasts_to(a@.shape, old(out)@.shape),
        broadcasts_to(b@.shape, old(out)@.shape),
    ensures
        final(out).wf(),
        final(out)@.shape == old(out)@.shape,
        final(out)@.data == broadcast_product(a@, b@, old(out)@.shape),
{
    let n = out.len();
    let mut i: usize = 0;
    while i < n
        invariant
            i <= n,
            n == count(out@.shape),
            out.wf(),
            a.wf(),
            b.wf(),
            out@.shape == old(out)@.shape,
            broadcasts_to(a@.shape, out@.shape),
            broadcasts_to(b@.shape, out@.shape),
            forall|p: int|
                0 <= p < i ==> out@.data[p] == a@.data[source_index(
                    a@.shape,
                    out@.shape,
                    p,
                )].product(b@.data[source_index(b@.shape, out@.shape, p)]),
        decreases n - i,
    {
        let x = a.get(source_offset(a.shape(), out.shape(), i));
        let y = b.get(source_offset(b.shape(), out.shape(), i));
        out.set(i, x.times(y));
        i += 1;
    }
    proof {
        assert(out@.data =~= broadcast_product(a@, b@, old(out)@.shape));
    }
}

/// Reads the entry in row `i` and column `j` of `m`, or of its transpose
/// where `transposed`.
fn read_entry<T: Scalar>(m: &Tensor<T>, transposed: bool, i: usize, j: usize) -> (r: T)
    requires
        is_matrix(m@),
        i < rows(m@, transposed),
        j < cols(m@, transposed),
    ensures
        r == entry(m@, transposed, i as int, j as int),
{
    let width = m.shape()[1];
    proof {
        lemma_count_matrix(m@.shape);
    }
    if transposed {
        assert(j * width + i < m@.shape[0] * width) by (nonlinear_arith)
            requires
                0 <= i < width,
                0 <= j < m@.shape[0],
        ;
        m.get(j * width + i)
    } else {
        assert(i * width + j < m@.shape[0] * width) by (nonlinear_arith)
            requires
                0 <= j < width,
                0 <= i < m@.shape[0],
        ;
        m.get(i * width + j)
    }
}

/// Computes the product of the matrices `a` and `b`, each read transposed
/// where its flag is set, and stores it in `out`, or adds it to `out` where
/// `accumulate` is set.
pub fn matrix_product_into<T: Scalar>(
    out: &mut Tensor<T>,
    accumulate: bool,
    a: &Tensor<T>,
    a_transposed: bool,
    b: &Tensor<T>,
    b_transposed: bool,
)
    requires
        is_matrix(old(out)@),
        is_matrix(a@),
        is_matrix(b@),
        cols(a@, a_transposed) == rows(b@, b_transposed),
        rows(old(out)@, false) == rows(a@, a_transposed),
        cols(old(out)@, false) == cols(b@, b_transposed),
    ensures
        is_matrix(final(out)@),
        final(out)@.shape == old(out)@.shape,
        final(out)@.data == if accumulate {
            elementwise_sum(old(out)@.data, matrix_product(a@, a_transposed, b@, b_transposed))
        } else {
            matrix_product(a@, a_transposed, b@, b_transposed)
        },
{
    proof {
        lemma_count_matrix(out@.shape);
    }
    let m = out.shape()[0];
    let n = out.shape()[1];
    let inner = if a_transposed {
        a.shape()[0]
    } else {
        a.shape()[1]
    };
    let mut i: usize = 0;
    while i < m
        invariant
            i <= m,
            m == rows(old(out)@, false),
            n == cols(old(out)@, false),
            inner == cols(a@, a_transposed),
            is_matrix(out@),
            is_matrix(a@),
            is_matrix(b@),
            cols(a@, a_transposed) == rows(b@, b_transposed),
            m == rows(a@, a_transposed),
            n == cols(b@, b_transposed),
            out@.shape == old(out)@.shape,
            out@.data.len() == old(out)@.data.len(),
            forall|p: int| i * n <= p < m * n ==> out@.data[p] == old(out)@.data[p],
            forall|r: int, c: int|
                0 <= r < i && 0 <= c < n ==> #[trigger] entry(out@, false, r, c) == {
                    let product = dot(a@, a_transposed, b@, b_transposed, r, c, inner as nat);
                    if accumulate {
                        entry(old(out)@, false, r, c).sum(product)
                    } else {
                        product
                    }
                },
        decreases m - i,
    {
        let mut j: usize = 0;
        while j < n
            invariant
                i < m,
                j <= n,
                m == rows(old(out)@, false),
                n == cols(old(out)@, false),
                inner == cols(a@, a_transposed),
                is_matrix(out@),
                is_matrix(a@),
                is_matrix(b@),
                cols(a@, a_transposed) == rows(b@, b_transposed),
                m == rows(a@, a_transposed),
                n == cols(b@, b_transposed),
                out@.shape == old(out)@.shape,
                out@.data.len() == old(out)@.data.len(),
                forall|p: int| i * n + j <= p < m * n ==> out@.data[p] == old(out)@.data[p],
                forall|r: int, c: int|
                    0 <= r < i && 0 <= c < n ==> #[trigger] entry(out@, false, r, c) == {
                        let product = dot(a@, a_transposed, b@, b_transposed, r, c, inner as nat);
                        if accumulate {
                            entry(old(out)@, false, r, c).sum(product)
                        } else {
                            product
                        }
                    },
                forall|c: int|
                    0 <= c < j ==> #[trigger] entry(out@, false, i as int, c) == {
                        let product = dot(
                            a@,
                            a_transposed,
                            b@,
                            b_transposed,
                            i as int,
                            c,
                            inner as nat,
                        );
                        if accumulate {
                            entry(old(out)@, false, i as int, c).sum(product)
                        } else {
                            product
                        }
                    },
            decreases n - j,
        {
            let mut total = T::zero();
            let mut l: usize = 0;
            while l < inner
                invariant
                    i < m,
                    j < n,
                    l <= inner,
                    is_matrix(a@),
                    is_matrix(b@),
                    inner == cols(a@, a_transposed),
                    cols(a@, a_transposed) == rows(b@, b_transposed),
                    m == rows(a@, a_transposed),
                    n == cols(b@, b_transposed),
                    total == dot(a@, a_transposed, b@, b_transposed, i as int, j as int, l as nat),
                decreases inner - l,
            {
                let x = read_entry(a, a_transposed, i, l);
                let y = read_entry(b, b_transposed, l, j);
                total = total.plus(x.times(y));
                l += 1;
            }
            proof {
                lemma_count_matrix(out@.shape);
            }
            assert(i * n + j < m * n && i * n + j + 1 <= m * n) by (nonlinear_arith)
                requires
                    0 <= i < m,
                    0 <= j < n,
            ;
            let position = i * n + j;
            let ghost before = out@;
            if accumulate {
                let sum = out.get(position).plus(total);
                out.set(position, sum);
            } else {
                out.set(position, total);
            }
            proof {
                assert forall|r: int, c: int| 0 <= r < i && 0 <= c < n implies #[trigger] entry(
                    out@,
                    false,
                    r,
                    c,
                ) == entry(before, false, r, c) by {
                    assert(r * n + c < i * n + j) by (nonlinear_arith)
                        requires
                            0 <= r < i,
                            0 <= c < n,
                            0 <= j,
                    ;
                }
                assert forall|c: int| 0 <= c < j implies #[trigger] entry(out@, false, i as int, c)
                    == entry(before, false, i as int, c) by {}
                assert((i + 1) * n == i * n + n) by (nonlinear_arith);
            }
            j += 1;
        }
        proof {
            assert((i + 1) * n == i * n + n) by (nonlinear_arith);
        }
        i += 1;
    }
    proof {
        let product = matrix_product(a@, a_transposed, b@, b_transposed);
        let expected = if accumulate {
            elementwise_sum(old(out)@.data, product)
        } else {
            product
        };
        assert forall|p: int| 0 <= p < m * n implies out@.data[p] == expected[p] by {
            lemma_split_position(p, m as int, n as int);
            assert(entry(out@, false, p / (n as int), p % (n as int)) == out@.data[p]);
        }
        assert(out@.data =~= expected);
    }
}

} // verus!
