//! Dense tensors and the elementwise passes over them.

use crate::scalar::{product_of, single_valued, sum_of, zero_value, Scalar};
use crate::shape::{
    broadcasts_to, checked_size, copy_shape, lemma_source_index_same, size, source_index,
    source_offset,
};
use vstd::prelude::*;

verus! {

/// A dense tensor: a shape and its elements in row-major order.
#[derive(Debug, PartialEq)]
pub struct Tensor<T> {
    pub shape: Vec<usize>,
    pub data: Vec<T>,
}

impl<T> View for Tensor<T> {
    type V = Seq<T>;

    /// The elements, in row-major order.
    open spec fn view(&self) -> Seq<T> {
        self.data@
    }
}

impl<T: Copy> Tensor<T> {
    /// The axis lengths.
    pub open spec fn dims(&self) -> Seq<usize> {
        self.shape@
    }

    /// There are as many elements as the shape asks for.
    pub open spec fn wf(&self) -> bool {
        &&& self.data@.len() == size(self.shape@)
        &&& size(self.shape@) <= usize::MAX
    }

    /// A tensor of the given shape over the given elements, if their number
    /// is that of the shape.
    pub fn from_vec(shape: Vec<usize>, data: Vec<T>) -> (r: Option<Self>)
        ensures
            r is Some <==> data@.len() == size(shape@),
            r matches Some(t) ==> t.wf() && t.dims() == shape@ && t@ == data@,
    {
        let len: usize = data.len();
        match checked_size(&shape) {
            Some(n) => {
                if n == len {
                    Some(Tensor { shape, data })
                } else {
                    None
                }
            },
            None => None,
        }
    }

    /// Whether there are as many elements as the shape asks for.
    pub fn is_wf(&self) -> (r: bool)
        ensures
            r == self.wf(),
    {
        let len: usize = self.data.len();
        match checked_size(&self.shape) {
            Some(n) => n == len,
            None => false,
        }
    }

    /// A tensor of the given shape with every element equal to `value`.
    pub fn filled(shape: &Vec<usize>, value: T) -> (r: Self)
        requires
            size(shape@) <= usize::MAX,
        ensures
            r.wf(),
            r.dims() == shape@,
            forall|i: int| 0 <= i < r@.len() ==> r@[i] == value,
    {
        let n: usize = checked_size(shape).unwrap();
        let mut data: Vec<T> = Vec::new();
        let mut i: usize = 0;
        while i < n
            invariant
                i <= n,
                data@.len() == i,
                forall|k: int| 0 <= k < i ==> data@[k] == value,
            decreases n - i,
        {
            data.push(value);
            i += 1;
        }
        Tensor { shape: copy_shape(shape), data }
    }

    /// The axis lengths.
    pub fn shape(&self) -> (r: &Vec<usize>)
        ensures
            r@ == self.dims(),
    {
        &self.shape
    }

    /// The elements, in row-major order.
    pub fn data(&self) -> (r: &Vec<T>)
        ensures
            r@ == self@,
    {
        &self.data
    }

    /// The number of elements.
    pub fn len(&self) -> (r: usize)
        ensures
            r == self@.len(),
    {
        self.data.len()
    }

    /// The element at row-major position `i`.
    pub fn get(&self, i: usize) -> (r: T)
        requires
            i < self@.len(),
        ensures
            r == self@[i as int],
    {
        self.data[i]
    }

    /// A copy of this tensor.
    pub fn copy(&self) -> (r: Self)
        ensures
            r.dims() == self.dims(),
            r@ == self@,
            self.wf() ==> r.wf(),
    {
        let mut data: Vec<T> = Vec::new();
        let mut i: usize = 0;
        while i < self.data.len()
            invariant
                i <= self.data.len(),
                data@ == self.data@.take(i as int),
            decreases self.data.len() - i,
        {
            data.push(self.data[i]);
            assert(self.data@.take(i as int).push(self.data@[i as int]) =~= self.data@.take(
                i + 1,
            ));
            i += 1;
        }
        assert(self.data@.take(self.data.len() as int) =~= self.data@);
        Tensor { shape: copy_shape(&self.shape), data }
    }

    /// The tensor of the values of `f` on the elements of this one.
    pub fn map<F: Fn(T) -> T>(&self, f: F) -> (r: Self)
        requires
            forall|x: T| call_requires(f, (x,)),
        ensures
            r.dims() == self.dims(),
            r@.len() == self@.len(),
            self.wf() ==> r.wf(),
            forall|i: int| 0 <= i < self@.len() ==> call_ensures(f, (self@[i],), #[trigger] r@[i]),
    {
        let mut data: Vec<T> = Vec::new();
        let mut i: usize = 0;
        while i < self.data.len()
            invariant
                i <= self.data.len(),
                data@.len() == i,
                forall|x: T| call_requires(f, (x,)),
                forall|k: int| 0 <= k < i ==> call_ensures(f, (self@[k],), #[trigger] data@[k]),
            decreases self.data.len() - i,
        {
            data.push(f(self.data[i]));
            i += 1;
        }
        Tensor { shape: copy_shape(&self.shape), data }
    }

    /// The tensor of shape `shape` whose element `i` is a value of `f` on the
    /// elements that `left` and `right`, stretched to that shape, have there.
    pub fn zip_broadcast<F: Fn(T, T) -> T>(
        left: &Self,
        right: &Self,
        shape: &Vec<usize>,
        f: F,
    ) -> (r: Self)
        requires
            left.wf(),
            right.wf(),
            broadcasts_to(left.dims(), shape@),
            broadcasts_to(right.dims(), shape@),
            size(shape@) <= usize::MAX,
            forall|x: T, y: T| call_requires(f, (x, y)),
        ensures
            r.wf(),
            r.dims() == shape@,
            forall|i: int|
                0 <= i < r@.len() ==> call_ensures(
                    f,
                    (
                        left@[source_index(left.dims(), shape@, i)],
                        right@[source_index(right.dims(), shape@, i)],
                    ),
                    #[trigger] r@[i],
                ),
    {
        let n: usize = checked_size(shape).unwrap();
        let mut data: Vec<T> = Vec::new();
        let mut i: usize = 0;
        while i < n
            invariant
                i <= n,
                n == size(shape@),
                data@.len() == i,
                left.wf(),
                right.wf(),
                broadcasts_to(left.dims(), shape@),
                broadcasts_to(right.dims(), shape@),
                forall|x: T, y: T| call_requires(f, (x, y)),
                forall|k: int|
                    0 <= k < i ==> call_ensures(
                        f,
                        (
                            left@[source_index(left.dims(), shape@, k)],
                            right@[source_index(right.dims(), shape@, k)],
                        ),
                        #[trigger] data@[k],
                    ),
            decreases n - i,
        {
            let a: usize = source_offset(&left.shape, shape, i);
            let b: usize = source_offset(&right.shape, shape, i);
            data.push(f(left.data[a], right.data[b]));
            i += 1;
        }
        Tensor { shape: copy_shape(shape), data }
    }

    /// The tensor whose element `i` is a value of `f` on the elements `i` of
    /// two tensors of one shape.
    pub fn zip<F: Fn(T, T) -> T>(left: &Self, right: &Self, f: F) -> (r: Self)
        requires
            left.wf(),
            right.wf(),
            left.dims() == right.dims(),
            forall|x: T, y: T| call_requires(f, (x, y)),
        ensures
            r.wf(),
            r.dims() == left.dims(),
            forall|i: int|
                0 <= i < r@.len() ==> call_ensures(f, (left@[i], right@[i]), #[trigger] r@[i]),
    {
        let r = Self::zip_broadcast(left, right, &left.shape, f);
        proof {
            assert forall|i: int| 0 <= i < r@.len() implies call_ensures(
                f,
                (left@[i], right@[i]),
                #[trigger] r@[i],
            ) by {
                lemma_source_index_same(left.dims(), i);
            }
        }
        r
    }

    /// The tensor of shape `shape` whose element `i` is a value of `f` on the
    /// elements that `a`, `b` and `c`, stretched to that shape, have there.
    pub fn zip3_broadcast<F: Fn(T, T, T) -> T>(
        a: &Self,
        b: &Self,
        c: &Self,
        shape: &Vec<usize>,
        f: F,
    ) -> (r: Self)
        requires
            a.wf(),
            b.wf(),
            c.wf(),
            broadcasts_to(a.dims(), shape@),
            broadcasts_to(b.dims(), shape@),
            broadcasts_to(c.dims(), shape@),
            size(shape@) <= usize::MAX,
            forall|x: T, y: T, z: T| call_requires(f, (x, y, z)),
        ensures
            r.wf(),
            r.dims() == shape@,
            forall|i: int|
                0 <= i < r@.len() ==> call_ensures(
                    f,
                    (
                        a@[source_index(a.dims(), shape@, i)],
                        b@[source_index(b.dims(), shape@, i)],
                        c@[source_index(c.dims(), shape@, i)],
                    ),
                    #[trigger] r@[i],
                ),
    {
        let n: usize = checked_size(shape).unwrap();
        let mut data: Vec<T> = Vec::new();
        let mut i: usize = 0;
        while i < n
            invariant
                i <= n,
                n == size(shape@),
                data@.len() == i,
                a.wf(),
                b.wf(),
                c.wf(),
                broadcasts_to(a.dims(), shape@),
                broadcasts_to(b.dims(), shape@),
                broadcasts_to(c.dims(), shape@),
                forall|x: T, y: T, z: T| call_requires(f, (x, y, z)),
                forall|k: int|
                    0 <= k < i ==> call_ensures(
                        f,
                        (
                            a@[source_index(a.dims(), shape@, k)],
                            b@[source_index(b.dims(), shape@, k)],
                            c@[source_index(c.dims(), shape@, k)],
                        ),
                        #[trigger] data@[k],
                    ),
            decreases n - i,
        {
            let ia: usize = source_offset(&a.shape, shape, i);
            let ib: usize = source_offset(&b.shape, shape, i);
            let ic: usize = source_offset(&c.shape, shape, i);
            data.push(f(a.data[ia], b.data[ib], c.data[ic]));
            i += 1;
        }
        Tensor { shape: copy_shape(shape), data }
    }
}

impl<T: Scalar> Tensor<T> {
    /// A tensor of the given shape with every element a zero.
    pub fn zeros(shape: &Vec<usize>) -> (r: Self)
        requires
            size(shape@) <= usize::MAX,
        ensures
            r.wf(),
            r.dims() == shape@,
            forall|i: int| 0 <= i < r@.len() ==> zero_value(#[trigger] r@[i]),
    {
        Self::filled(shape, T::zero())
    }

    /// The sum of this tensor over the axes along which an operand of shape
    /// `shape` was stretched to it.
    pub fn reduce(&self, shape: &Vec<usize>) -> (r: Self)
        requires
            self.wf(),
            broadcasts_to(shape@, self.dims()),
            size(shape@) <= usize::MAX,
        ensures
            reduction_of(*self, shape@, r),
    {
        let mut out = Self::zeros(shape);
        let n: usize = self.data.len();
        let mut i: usize = 0;
        while i < n
            invariant
                i <= n,
                n == self@.len(),
                self.wf(),
                broadcasts_to(shape@, self.dims()),
                out.wf(),
                out.dims() == shape@,
                forall|j: int|
                    0 <= j < out@.len() ==> reduced_to(
                        self@,
                        shape@,
                        self.dims(),
                        j,
                        i as nat,
                        #[trigger] out@[j],
                    ),
            decreases n - i,
        {
            let j: usize = source_offset(shape, &self.shape, i);
            let before = out.data[j];
            let after = before.add(self.data[i]);
            let ghost prev = out@;
            out.data[j] = after;
            proof {
                assert(sum_of(before, self@[i as int], after));
                assert forall|k: int| 0 <= k < out@.len() implies reduced_to(
                    self@,
                    shape@,
                    self.dims(),
                    k,
                    (i + 1) as nat,
                    #[trigger] out@[k],
                ) by {
                    if k == j {
                        lemma_reduced_take(
                            self@,
                            shape@,
                            self.dims(),
                            k,
                            i as nat,
                            prev[k],
                            out@[k],
                        );
                    } else {
                        lemma_reduced_skip(self@, shape@, self.dims(), k, i as nat, prev[k]);
                    }
                }
            }
            i += 1;
        }
        out
    }

    /// The product of this matrix with the vector `v`.
    pub fn mat_vec(&self, v: &Self) -> (r: Self)
        requires
            self.wf(),
            v.wf(),
            self.dims().len() == 2,
            v.dims().len() == 1,
            self.dims()[1] == v.dims()[0],
        ensures
            matrix_vector_product(*self, *v, r),
    {
        let rows: usize = self.shape[0];
        let cols: usize = self.shape[1];
        proof {
            lemma_size_matrix(self.dims());
            lemma_size_vector(v.dims());
        }
        let mut data: Vec<T> = Vec::new();
        let mut i: usize = 0;
        while i < rows
            invariant
                i <= rows,
                rows * cols == self@.len(),
                rows * cols <= usize::MAX,
                self.dims().len() == 2,
                cols == v@.len(),
                cols == self.dims()[1],
                data@.len() == i,
                forall|k: int|
                    0 <= k < i ==> dot_of(self@, k * cols, 1, v@, v@.len(), #[trigger] data@[k]),
            decreases rows - i,
        {
            assert(i * cols + cols <= rows * cols && 0 <= i * cols) by (nonlinear_arith)
                requires
                    0 <= i < rows,
                    cols >= 0,
            ;
            let d = dot_strided(&self.data, i * cols, 1, &v.data);
            data.push(d);
            i += 1;
        }
        let mut shape: Vec<usize> = Vec::new();
        shape.push(rows);
        proof {
            lemma_size_vector(shape@);
            assert(shape@ =~= seq![self.dims()[0]]);
        }
        Tensor { shape, data }
    }

    /// The product of the vector `v` with this matrix.
    pub fn vec_mat(&self, v: &Self) -> (r: Self)
        requires
            self.wf(),
            v.wf(),
            self.dims().len() == 2,
            v.dims().len() == 1,
            self.dims()[0] == v.dims()[0],
        ensures
            vector_matrix_product(*v, *self, r),
    {
        let rows: usize = self.shape[0];
        let cols: usize = self.shape[1];
        proof {
            lemma_size_matrix(self.dims());
            lemma_size_vector(v.dims());
        }
        let mut data: Vec<T> = Vec::new();
        let mut j: usize = 0;
        while j < cols
            invariant
                j <= cols,
                rows * cols == self@.len(),
                self.dims().len() == 2,
                rows == v@.len(),
                cols == self.dims()[1],
                data@.len() == j,
                forall|k: int|
                    0 <= k < j ==> dot_of(self@, k, cols as int, v@, v@.len(), #[trigger] data@[k]),
            decreases cols - j,
        {
            assert(rows > 0 ==> j + (rows - 1) * cols < rows * cols) by (nonlinear_arith)
                requires
                    j < cols,
            ;
            let d = dot_strided(&self.data, j, cols, &v.data);
            data.push(d);
            j += 1;
        }
        let mut shape: Vec<usize> = Vec::new();
        shape.push(cols);
        proof {
            lemma_size_vector(shape@);
            assert(shape@ =~= seq![self.dims()[1]]);
        }
        Tensor { shape, data }
    }

    /// The outer product of two vectors: the matrix whose row `i` is
    /// `a[i]` times `b`.
    pub fn outer(a: &Self, b: &Self) -> (r: Self)
        requires
            a.wf(),
            b.wf(),
            a.dims().len() == 1,
            b.dims().len() == 1,
            a@.len() * b@.len() <= usize::MAX,
        ensures
            outer_product(*a, *b, r),
    {
        let rows: usize = a.data.len();
        let cols: usize = b.data.len();
        proof {
            lemma_size_vector(a.dims());
            lemma_size_vector(b.dims());
        }
        let mut data: Vec<T> = Vec::new();
        let mut i: usize = 0;
        while i < rows
            invariant
                i <= rows,
                rows == a@.len(),
                cols == b@.len(),
                rows * cols <= usize::MAX,
                data@.len() == i * cols,
                forall|p: int, q: int|
                    0 <= p < i && 0 <= q < cols ==> product_of(
                        #[trigger] a@[p],
                        #[trigger] b@[q],
                        data@[p * cols + q],
                    ),
            decreases rows - i,
        {
            let mut j: usize = 0;
            while j < cols
                invariant
                    i < rows,
                    j <= cols,
                    rows == a@.len(),
                    cols == b@.len(),
                    data@.len() == i * cols + j,
                    forall|p: int, q: int|
                        0 <= p < i && 0 <= q < cols ==> product_of(
                            #[trigger] a@[p],
                            #[trigger] b@[q],
                            data@[p * cols + q],
                        ),
                    forall|q: int|
                        0 <= q < j ==> product_of(
                            a@[i as int],
                            #[trigger] b@[q],
                            data@[i * cols + q],
                        ),
                decreases cols - j,
            {
                let ghost prev = data@;
                data.push(a.data[i].mul(b.data[j]));
                proof {
                    assert forall|p: int, q: int| 0 <= p < i && 0 <= q < cols implies product_of(
                        #[trigger] a@[p],
                        #[trigger] b@[q],
                        data@[p * cols + q],
                    ) by {
                        assert(p * cols + q < i * cols) by (nonlinear_arith)
                            requires
                                0 <= p < i,
                                0 <= q < cols,
                        ;
                        assert(data@[p * cols + q] == prev[p * cols + q]);
                    }
                }
                j += 1;
            }
            proof {
                assert((i + 1) * cols == i * cols + cols) by (nonlinear_arith);
            }
            i += 1;
        }
        let mut shape: Vec<usize> = Vec::new();
        shape.push(rows);
        shape.push(cols);
        proof {
            lemma_size_matrix(shape@);
            assert(shape@ =~= seq![a.dims()[0], b.dims()[0]]);
        }
        Tensor { shape, data }
    }
}

/// `r` is a value of adding, in order and starting from a zero, those of the
/// first `n` elements of `g` that are read from position `j` of an operand of
/// shape `shape` stretched to `target`.
pub open spec fn reduced_to<T: Scalar>(
    g: Seq<T>,
    shape: Seq<usize>,
    target: Seq<usize>,
    j: int,
    n: nat,
    r: T,
) -> bool
    decreases n,
{
    if n == 0 {
        zero_value(r)
    } else if source_index(shape, target, n - 1) == j {
        exists|p: T|
            reduced_to(g, shape, target, j, (n - 1) as nat, p) && #[trigger] sum_of(
                p,
                g[n - 1],
                r,
            )
    } else {
        reduced_to(g, shape, target, j, (n - 1) as nat, r)
    }
}

/// `r` is a value of adding, in order and starting from a zero, the products
/// of `m[start + k * step]` and `v[k]` for `k` below `n`.
pub open spec fn dot_of<T: Scalar>(
    m: Seq<T>,
    start: int,
    step: int,
    v: Seq<T>,
    n: nat,
    r: T,
) -> bool
    decreases n,
{
    if n == 0 {
        zero_value(r)
    } else {
        exists|p: T, q: T|
            #![trigger sum_of(p, q, r)]
            {
                &&& dot_of(m, start, step, v, (n - 1) as nat, p)
                &&& product_of(m[start + (n - 1) * step], v[n - 1], q)
                &&& sum_of(p, q, r)
            }
    }
}

/// `out` is a value of the product of the matrix `m` with the vector `v`:
/// element `i` is the dot product of row `i` with `v`.
pub open spec fn matrix_vector_product<T: Scalar>(
    m: Tensor<T>,
    v: Tensor<T>,
    out: Tensor<T>,
) -> bool {
    &&& out.wf()
    &&& out.dims() == seq![m.dims()[0]]
    &&& forall|i: int|
        0 <= i < out@.len() ==> dot_of(m@, i * m.dims()[1], 1, v@, v@.len(), #[trigger] out@[i])
}

/// `out` is a value of the product of the vector `v` with the matrix `m`:
/// element `j` is the dot product of column `j` with `v`.
pub open spec fn vector_matrix_product<T: Scalar>(
    v: Tensor<T>,
    m: Tensor<T>,
    out: Tensor<T>,
) -> bool {
    &&& out.wf()
    &&& out.dims() == seq![m.dims()[1]]
    &&& forall|j: int|
        0 <= j < out@.len() ==> dot_of(m@, j, m.dims()[1] as int, v@, v@.len(), #[trigger] out@[j])
}

/// `out` is a value of the outer product of the vectors `a` and `b`: row `i`
/// is `a[i]` times `b`.
pub open spec fn outer_product<T: Scalar>(a: Tensor<T>, b: Tensor<T>, out: Tensor<T>) -> bool {
    &&& out.wf()
    &&& out.dims() == seq![a.dims()[0], b.dims()[0]]
    &&& out@.len() == a@.len() * b@.len()
    &&& forall|i: int, j: int|
        0 <= i < a@.len() && 0 <= j < b@.len() ==> product_of(
            #[trigger] a@[i],
            #[trigger] b@[j],
            out@[i * b@.len() + j],
        )
}

/// `c` is a value of the sum of `g` over the axes along which an operand of
/// shape `shape` was stretched to it: element `j` of `c` adds up, in order, the
/// elements of `g` that are read from position `j` of such an operand.
pub open spec fn reduction_of<T: Scalar>(g: Tensor<T>, shape: Seq<usize>, c: Tensor<T>) -> bool {
    &&& c.wf()
    &&& c.dims() == shape
    &&& forall|j: int|
        0 <= j < c@.len() ==> reduced_to(g@, shape, g.dims(), j, g@.len(), #[trigger] c@[j])
}

/// A sum over the first `n` elements extends by element `n` where that one is
/// read from position `j`.
pub proof fn lemma_reduced_take<T: Scalar>(
    g: Seq<T>,
    shape: Seq<usize>,
    target: Seq<usize>,
    j: int,
    n: nat,
    p: T,
    r: T,
)
    requires
        reduced_to(g, shape, target, j, n, p),
        source_index(shape, target, n as int) == j,
        sum_of(p, g[n as int], r),
    ensures
        reduced_to(g, shape, target, j, n + 1, r),
{
    let n1: nat = n + 1;
    assert((n1 - 1) as nat == n);
    assert(n1 - 1 == n as int);
    assert(reduced_to(g, shape, target, j, (n1 - 1) as nat, p));
    assert(sum_of(p, g[n1 - 1], r));
}

/// A sum over the first `n` elements is one over the first `n + 1` where
/// element `n` is read from another position than `j`.
pub proof fn lemma_reduced_skip<T: Scalar>(
    g: Seq<T>,
    shape: Seq<usize>,
    target: Seq<usize>,
    j: int,
    n: nat,
    r: T,
)
    requires
        reduced_to(g, shape, target, j, n, r),
        source_index(shape, target, n as int) != j,
    ensures
        reduced_to(g, shape, target, j, n + 1, r),
{
    let n1: nat = n + 1;
    assert((n1 - 1) as nat == n);
    assert(n1 - 1 == n as int);
}

/// A dot product over `n` terms extends by the product of term `n`.
pub proof fn lemma_dot_extend<T: Scalar>(
    m: Seq<T>,
    start: int,
    step: int,
    v: Seq<T>,
    n: nat,
    p: T,
    q: T,
    r: T,
)
    requires
        dot_of(m, start, step, v, n, p),
        product_of(m[start + n * step], v[n as int], q),
        sum_of(p, q, r),
    ensures
        dot_of(m, start, step, v, n + 1, r),
{
    let n1: nat = n + 1;
    assert((n1 - 1) as nat == n);
    assert(n1 - 1 == n as int);
    assert(start + (n1 - 1) * step == start + n * step);
    assert(dot_of(m, start, step, v, (n1 - 1) as nat, p));
    assert(product_of(m[start + (n1 - 1) * step], v[n1 - 1], q));
}

/// Over a single-valued scalar a sum over the elements read from one position
/// has one value.
pub proof fn lemma_reduced_single_valued<T: Scalar>(
    g: Seq<T>,
    shape: Seq<usize>,
    target: Seq<usize>,
    j: int,
    n: nat,
    r1: T,
    r2: T,
)
    requires
        single_valued::<T>(),
        reduced_to(g, shape, target, j, n, r1),
        reduced_to(g, shape, target, j, n, r2),
    ensures
        r1 == r2,
    decreases n,
{
    if n > 0 {
        if source_index(shape, target, n - 1) == j {
            let p1 = choose|p: T|
                reduced_to(g, shape, target, j, (n - 1) as nat, p) && #[trigger] sum_of(
                    p,
                    g[n - 1],
                    r1,
                );
            let p2 = choose|p: T|
                reduced_to(g, shape, target, j, (n - 1) as nat, p) && #[trigger] sum_of(
                    p,
                    g[n - 1],
                    r2,
                );
            lemma_reduced_single_valued(g, shape, target, j, (n - 1) as nat, p1, p2);
        } else {
            lemma_reduced_single_valued(g, shape, target, j, (n - 1) as nat, r1, r2);
        }
    }
}

/// Over a single-valued scalar a dot product has one value.
pub proof fn lemma_dot_single_valued<T: Scalar>(
    m: Seq<T>,
    start: int,
    step: int,
    v: Seq<T>,
    n: nat,
    r1: T,
    r2: T,
)
    requires
        single_valued::<T>(),
        dot_of(m, start, step, v, n, r1),
        dot_of(m, start, step, v, n, r2),
    ensures
        r1 == r2,
    decreases n,
{
    if n > 0 {
        let (p1, q1) = choose|p: T, q: T|
            #![trigger sum_of(p, q, r1)]
            {
                &&& dot_of(m, start, step, v, (n - 1) as nat, p)
                &&& product_of(m[start + (n - 1) * step], v[n - 1], q)
                &&& sum_of(p, q, r1)
            };
        let (p2, q2) = choose|p: T, q: T|
            #![trigger sum_of(p, q, r2)]
            {
                &&& dot_of(m, start, step, v, (n - 1) as nat, p)
                &&& product_of(m[start + (n - 1) * step], v[n - 1], q)
                &&& sum_of(p, q, r2)
            };
        lemma_dot_single_valued(m, start, step, v, (n - 1) as nat, p1, p2);
    }
}

/// Over a single-valued scalar the sum of a tensor down to a shape has one
/// value.
pub proof fn lemma_reduction_single_valued<T: Scalar>(
    g: Tensor<T>,
    shape: Seq<usize>,
    c1: Tensor<T>,
    c2: Tensor<T>,
)
    requires
        single_valued::<T>(),
        reduction_of(g, shape, c1),
        reduction_of(g, shape, c2),
    ensures
        c1@ == c2@,
        c1.dims() == c2.dims(),
{
    assert forall|j: int| 0 <= j < c1@.len() implies c1@[j] == c2@[j] by {
        lemma_reduced_single_valued(g@, shape, g.dims(), j, g@.len(), c1@[j], c2@[j]);
    }
    assert(c1@ =~= c2@);
}

/// Over a single-valued scalar the product of a matrix with a vector has one
/// value.
pub proof fn lemma_matrix_vector_product_single_valued<T: Scalar>(
    m: Tensor<T>,
    v: Tensor<T>,
    o1: Tensor<T>,
    o2: Tensor<T>,
)
    requires
        single_valued::<T>(),
        matrix_vector_product(m, v, o1),
        matrix_vector_product(m, v, o2),
    ensures
        o1@ == o2@,
        o1.dims() == o2.dims(),
{
    assert(size(o1.dims()) == size(o2.dims()));
    assert forall|i: int| 0 <= i < o1@.len() implies o1@[i] == o2@[i] by {
        lemma_dot_single_valued(m@, i * m.dims()[1], 1, v@, v@.len(), o1@[i], o2@[i]);
    }
    assert(o1@ =~= o2@);
}

/// Over a single-valued scalar the product of a vector with a matrix has one
/// value.
pub proof fn lemma_vector_matrix_product_single_valued<T: Scalar>(
    v: Tensor<T>,
    m: Tensor<T>,
    o1: Tensor<T>,
    o2: Tensor<T>,
)
    requires
        single_valued::<T>(),
        vector_matrix_product(v, m, o1),
        vector_matrix_product(v, m, o2),
    ensures
        o1@ == o2@,
        o1.dims() == o2.dims(),
{
    assert(size(o1.dims()) == size(o2.dims()));
    assert forall|j: int| 0 <= j < o1@.len() implies o1@[j] == o2@[j] by {
        lemma_dot_single_valued(m@, j, m.dims()[1] as int, v@, v@.len(), o1@[j], o2@[j]);
    }
    assert(o1@ =~= o2@);
}

/// Over a single-valued scalar the outer product of two vectors has one
/// value.
pub proof fn lemma_outer_product_single_valued<T: Scalar>(
    a: Tensor<T>,
    b: Tensor<T>,
    o1: Tensor<T>,
    o2: Tensor<T>,
)
    requires
        single_valued::<T>(),
        outer_product(a, b, o1),
        outer_product(a, b, o2),
    ensures
        o1@ == o2@,
        o1.dims() == o2.dims(),
{
    let cols = b@.len() as int;
    assert forall|k: int| 0 <= k < o1@.len() implies o1@[k] == o2@[k] by {
        assert(cols > 0) by (nonlinear_arith)
            requires
                0 <= k < a@.len() * cols,
                cols >= 0,
        ;
        let i = k / cols;
        let j = k % cols;
        assert(0 <= i < a@.len() && 0 <= j < cols && i * cols + j == k) by (nonlinear_arith)
            requires
                0 <= k < a@.len() * cols,
                cols > 0,
                i == k / cols,
                j == k % cols,
        ;
        assert(product_of(a@[i], b@[j], o1@[i * b@.len() + j]));
        assert(product_of(a@[i], b@[j], o2@[i * b@.len() + j]));
    }
    assert(o1@ =~= o2@);
}

/// A shape of one axis has as many elements as the axis is long.
pub proof fn lemma_size_vector(shape: Seq<usize>)
    requires
        shape.len() == 1,
    ensures
        size(shape) == shape[0],
{
    assert(shape.drop_last().len() == 0);
    assert(size(shape.drop_last()) == 1);
    assert(size(shape) == 1 * (shape[0] as nat));
}

/// A shape of two axes has rows times columns elements.
pub proof fn lemma_size_matrix(shape: Seq<usize>)
    requires
        shape.len() == 2,
    ensures
        size(shape) == shape[0] * shape[1],
{
    lemma_size_vector(shape.drop_last());
    assert(shape.drop_last()[0] == shape[0]);
}

/// The dot product of `v` with the elements of `m` that lie `step` apart from
/// `start` on.
fn dot_strided<T: Scalar>(m: &Vec<T>, start: usize, step: usize, v: &Vec<T>) -> (r: T)
    requires
        v@.len() > 0 ==> start + (v@.len() - 1) * step < m@.len(),
    ensures
        dot_of(m@, start as int, step as int, v@, v@.len(), r),
{
    let n: usize = v.len();
    let total: usize = m.len();
    let mut acc = T::zero();
    let mut k: usize = 0;
    let mut pos: usize = start;
    while k < n
        invariant
            k <= n,
            n == v@.len(),
            total == m@.len(),
            n > 0 ==> start + (n - 1) * step < m@.len(),
            k < n ==> pos == start + k * step,
            dot_of(m@, start as int, step as int, v@, k as nat, acc),
        decreases n - k,
    {
        assert(start + k * step <= start + (n - 1) * step) by (nonlinear_arith)
            requires
                k < n,
                step >= 0,
        ;
        let q = m[pos].mul(v[k]);
        let next = acc.add(q);
        proof {
            lemma_dot_extend(m@, start as int, step as int, v@, k as nat, acc, q, next);
        }
        acc = next;
        k += 1;
        if k < n {
            assert(start + k * step <= start + (n - 1) * step && start + k * step == start + (k - 1)
                * step + step) by (nonlinear_arith)
                requires
                    0 < k < n,
                    step >= 0,
            ;
            pos += step;
        }
    }
    acc
}

} // verus!
