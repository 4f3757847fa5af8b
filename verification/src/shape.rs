//! Shapes, the broadcasting rule, and where a broadcast element comes from.
//!
//! A shape is a sequence of axis lengths; elements lie in row-major order, the
//! last axis running fastest. Everything here is integer arithmetic.

use vstd::prelude::*;

verus! {

/// The number of elements of a tensor of this shape: the product of its axes.
pub open spec fn size(shape: Seq<usize>) -> nat
    decreases shape.len(),
{
    if shape.len() == 0 {
        1
    } else {
        size(shape.drop_last()) * (shape.last() as nat)
    }
}

/// The axis `k` places before the last one.
pub open spec fn axis_from_end(shape: Seq<usize>, k: int) -> usize {
    shape[shape.len() - 1 - k]
}

/// A tensor of this shape can stand in for one of shape `target`: with the two
/// aligned at the last axis, each axis of `shape` equals the target's or is 1.
pub open spec fn broadcasts_to(shape: Seq<usize>, target: Seq<usize>) -> bool {
    &&& shape.len() <= target.len()
    &&& forall|k: int|
        0 <= k < shape.len() ==> {
            ||| #[trigger] shape[k] == target[k + target.len() - shape.len()]
            ||| shape[k] == 1
        }
}

/// Two shapes agree, axis by axis from the last: the lengths are equal or one
/// of them is 1.
pub open spec fn compatible(a: Seq<usize>, b: Seq<usize>) -> bool {
    forall|k: int|
        0 <= k < a.len() && k < b.len() ==> {
            ||| #[trigger] axis_from_end(a, k) == axis_from_end(b, k)
            ||| axis_from_end(a, k) == 1
            ||| axis_from_end(b, k) == 1
        }
}

/// The length of the common shape at the axis `k` places before the last.
pub open spec fn common_axis(a: Seq<usize>, b: Seq<usize>, k: int) -> usize {
    if k >= a.len() {
        axis_from_end(b, k)
    } else if k >= b.len() {
        axis_from_end(a, k)
    } else if axis_from_end(a, k) == 1 {
        axis_from_end(b, k)
    } else {
        axis_from_end(a, k)
    }
}

/// The longer of two ranks.
pub open spec fn common_rank(a: Seq<usize>, b: Seq<usize>) -> nat {
    if a.len() >= b.len() {
        a.len()
    } else {
        b.len()
    }
}

/// The shape that two operands are stretched to, if they agree.
pub open spec fn broadcast_of(a: Seq<usize>, b: Seq<usize>) -> Option<Seq<usize>> {
    if compatible(a, b) {
        Some(
            Seq::new(
                common_rank(a, b),
                |i: int| common_axis(a, b, common_rank(a, b) - 1 - i),
            ),
        )
    } else {
        None
    }
}

/// Where element `i` of a tensor of shape `target` is read from in an operand
/// of shape `shape` that was stretched to it.
///
/// Peeling the last axis: `i % n` is the position along it and `i / n` the
/// position among the rest. Along an axis of length 1 the operand has the one
/// position 0; otherwise the axes are equal and the position carries over.
pub open spec fn source_index(shape: Seq<usize>, target: Seq<usize>, i: int) -> int
    decreases shape.len(),
{
    if shape.len() == 0 || target.len() == 0 {
        0
    } else {
        let n = target.last() as int;
        let m = shape.last() as int;
        source_index(shape.drop_last(), target.drop_last(), i / n) * m + (i % n) % m
    }
}

/// A shape with elements has no empty axis, and neither has any prefix of it.
pub proof fn lemma_size_positive(shape: Seq<usize>, j: int)
    requires
        size(shape) > 0,
        0 <= j <= shape.len(),
    ensures
        size(shape.take(j)) > 0,
        size(shape.take(j)) <= size(shape),
        forall|k: int| 0 <= k < shape.len() ==> shape[k] > 0,
    decreases shape.len(),
{
    if shape.len() == 0 {
        assert(shape.take(j) =~= shape);
    } else {
        let rest = shape.drop_last();
        let last = shape.last() as nat;
        assert(size(rest) > 0 && last > 0) by (nonlinear_arith)
            requires
                size(rest) * last > 0,
        ;
        assert(size(rest) <= size(rest) * last) by (nonlinear_arith)
            requires
                last > 0,
        ;
        if j == shape.len() {
            assert(shape.take(j) =~= shape);
            lemma_size_positive(rest, j - 1);
        } else {
            lemma_size_positive(rest, j);
            assert(rest.take(j) =~= shape.take(j));
        }
        assert forall|k: int| 0 <= k < shape.len() implies shape[k] > 0 by {
            if k < rest.len() {
                assert(rest[k] == shape[k]);
            }
        }
    }
}

/// A shape with an empty axis has no elements.
pub proof fn lemma_size_zero(shape: Seq<usize>, k: int)
    requires
        0 <= k < shape.len(),
        shape[k] == 0,
    ensures
        size(shape) == 0,
    decreases shape.len(),
{
    let rest = shape.drop_last();
    if k == shape.len() - 1 {
        assert(size(rest) * 0 == 0) by (nonlinear_arith);
    } else {
        assert(rest[k] == shape[k]);
        lemma_size_zero(rest, k);
        assert(0 * (shape.last() as nat) == 0) by (nonlinear_arith);
    }
}

/// Dropping the last axis of both keeps one shape stretchable to the other.
pub proof fn lemma_broadcasts_to_rest(shape: Seq<usize>, target: Seq<usize>)
    requires
        broadcasts_to(shape, target),
        shape.len() > 0,
    ensures
        broadcasts_to(shape.drop_last(), target.drop_last()),
        shape.last() == target.last() || shape.last() == 1,
{
    let s1 = shape.drop_last();
    let t1 = target.drop_last();
    assert forall|k: int| 0 <= k < s1.len() implies (#[trigger] s1[k] == t1[k + t1.len()
        - s1.len()] || s1[k] == 1) by {
        assert(s1[k] == shape[k]);
    }
    let l = shape.len() - 1;
    assert(shape[l] == target[l + target.len() - shape.len()] || shape[l] == 1);
}

/// Every element of the target is read from inside the operand.
pub proof fn lemma_source_index_bound(shape: Seq<usize>, target: Seq<usize>, i: int)
    requires
        broadcasts_to(shape, target),
        0 <= i < size(target),
    ensures
        0 <= source_index(shape, target, i) < size(shape),
    decreases shape.len(),
{
    if shape.len() > 0 {
        let n = target.last() as int;
        let m = shape.last() as int;
        let s1 = shape.drop_last();
        let t1 = target.drop_last();
        lemma_broadcasts_to_rest(shape, target);
        let a = size(t1) as int;
        assert(n > 0 && a > 0 && 0 <= i / n < a) by (nonlinear_arith)
            requires
                0 <= i < a * n,
                a >= 0,
                n >= 0,
        ;
        lemma_source_index_bound(s1, t1, i / n);
        let rest = source_index(s1, t1, i / n);
        let c = (i % n) % m;
        assert(0 <= c < m) by (nonlinear_arith)
            requires
                m > 0,
                n > 0,
                c == (i % n) % m,
        ;
        let b = size(s1) as int;
        assert(0 <= rest * m + c < b * m) by (nonlinear_arith)
            requires
                0 <= rest < b,
                0 <= c < m,
        ;
    }
}

/// An operand of the target's own shape is read in place.
pub proof fn lemma_source_index_same(shape: Seq<usize>, i: int)
    requires
        0 <= i < size(shape),
    ensures
        source_index(shape, shape, i) == i,
    decreases shape.len(),
{
    if shape.len() > 0 {
        let n = shape.last() as int;
        let s1 = shape.drop_last();
        let a = size(s1) as int;
        assert(n > 0 && a > 0 && 0 <= i / n < a) by (nonlinear_arith)
            requires
                0 <= i < a * n,
                a >= 0,
                n >= 0,
        ;
        lemma_source_index_same(s1, i / n);
        assert((i / n) * n + (i % n) % n == i) by (nonlinear_arith)
            requires
                n > 0,
                i >= 0,
        ;
    }
}

/// The common shape of two operands is one that both can be stretched to.
pub proof fn lemma_broadcast_of_covers(a: Seq<usize>, b: Seq<usize>)
    requires
        broadcast_of(a, b) is Some,
    ensures
        broadcasts_to(a, broadcast_of(a, b)->0),
        broadcasts_to(b, broadcast_of(a, b)->0),
        broadcast_of(a, b)->0.len() == common_rank(a, b),
{
    let c = broadcast_of(a, b)->0;
    let n = common_rank(a, b) as int;
    assert forall|k: int| 0 <= k < a.len() implies (#[trigger] a[k] == c[k + c.len() - a.len()]
        || a[k] == 1) by {
        let e = a.len() - 1 - k;
        assert(axis_from_end(a, e) == a[k]);
        assert(c[k + n - a.len()] == common_axis(a, b, e));
    }
    assert forall|k: int| 0 <= k < b.len() implies (#[trigger] b[k] == c[k + c.len() - b.len()]
        || b[k] == 1) by {
        let e = b.len() - 1 - k;
        assert(axis_from_end(b, e) == b[k]);
        assert(c[k + n - b.len()] == common_axis(a, b, e));
        if e < a.len() {
            assert(axis_from_end(a, e) == axis_from_end(b, e) || axis_from_end(a, e) == 1
                || axis_from_end(b, e) == 1);
        }
    }
}

/// The common shape does not depend on the order of the operands.
pub proof fn lemma_broadcast_of_symmetric(a: Seq<usize>, b: Seq<usize>)
    ensures
        broadcast_of(a, b) == broadcast_of(b, a),
{
    if compatible(a, b) {
        assert forall|k: int| 0 <= k < b.len() && k < a.len() implies (#[trigger] axis_from_end(
            b,
            k,
        ) == axis_from_end(a, k) || axis_from_end(b, k) == 1 || axis_from_end(a, k) == 1) by {
            assert(axis_from_end(a, k) == axis_from_end(b, k) || axis_from_end(a, k) == 1
                || axis_from_end(b, k) == 1);
        }
        let n = common_rank(a, b) as int;
        let ab = broadcast_of(a, b)->0;
        let ba = broadcast_of(b, a)->0;
        assert forall|i: int| 0 <= i < n implies #[trigger] ab[i] == ba[i] by {
            let k = n - 1 - i;
            if k < a.len() && k < b.len() {
                assert(axis_from_end(a, k) == axis_from_end(b, k) || axis_from_end(a, k) == 1
                    || axis_from_end(b, k) == 1);
            }
        }
        assert(broadcast_of(a, b)->0 =~= broadcast_of(b, a)->0);
    } else {
        if compatible(b, a) {
            assert forall|k: int| 0 <= k < a.len() && k < b.len() implies (
            #[trigger] axis_from_end(a, k) == axis_from_end(b, k) || axis_from_end(a, k) == 1
                || axis_from_end(b, k) == 1) by {
                assert(axis_from_end(b, k) == axis_from_end(a, k) || axis_from_end(b, k) == 1
                    || axis_from_end(a, k) == 1);
            }
        }
    }
}

/// A shape without an empty axis has elements.
pub proof fn lemma_size_of_positive_axes(shape: Seq<usize>)
    requires
        forall|k: int| 0 <= k < shape.len() ==> shape[k] > 0,
    ensures
        size(shape) > 0,
    decreases shape.len(),
{
    if shape.len() > 0 {
        let rest = shape.drop_last();
        assert forall|k: int| 0 <= k < rest.len() implies rest[k] > 0 by {
            assert(rest[k] == shape[k]);
        }
        lemma_size_of_positive_axes(rest);
        let last = shape.last() as nat;
        assert(size(rest) * last > 0) by (nonlinear_arith)
            requires
                size(rest) > 0,
                last > 0,
        ;
    }
}

/// A copy of a shape.
pub fn copy_shape(shape: &Vec<usize>) -> (r: Vec<usize>)
    ensures
        r@ == shape@,
{
    let mut out: Vec<usize> = Vec::new();
    let mut i: usize = 0;
    while i < shape.len()
        invariant
            i <= shape.len(),
            out@ == shape@.take(i as int),
        decreases shape.len() - i,
    {
        out.push(shape[i]);
        assert(shape@.take(i as int).push(shape@[i as int]) =~= shape@.take(i + 1));
        i += 1;
    }
    assert(shape@.take(shape.len() as int) =~= shape@);
    out
}

/// Whether two shapes are the same.
pub fn same_shape(a: &Vec<usize>, b: &Vec<usize>) -> (r: bool)
    ensures
        r == (a@ == b@),
{
    if a.len() != b.len() {
        return false;
    }
    let mut i: usize = 0;
    while i < a.len()
        invariant
            i <= a.len(),
            a.len() == b.len(),
            forall|k: int| 0 <= k < i ==> a@[k] == b@[k],
        decreases a.len() - i,
    {
        if a[i] != b[i] {
            return false;
        }
        i += 1;
    }
    assert(a@ =~= b@);
    true
}

/// The number of elements of a shape, unless it exceeds what can be counted.
pub fn checked_size(shape: &Vec<usize>) -> (r: Option<usize>)
    ensures
        match r {
            Some(n) => n == size(shape@),
            None => size(shape@) > usize::MAX,
        },
{
    let mut k: usize = 0;
    while k < shape.len()
        invariant
            k <= shape.len(),
            forall|j: int| 0 <= j < k ==> shape@[j] > 0,
        decreases shape.len() - k,
    {
        if shape[k] == 0 {
            proof {
                lemma_size_zero(shape@, k as int);
            }
            return Some(0);
        }
        k += 1;
    }
    proof {
        lemma_size_of_positive_axes(shape@);
    }
    let mut acc: usize = 1;
    let mut i: usize = 0;
    while i < shape.len()
        invariant
            i <= shape.len(),
            size(shape@) > 0,
            acc == size(shape@.take(i as int)),
        decreases shape.len() - i,
    {
        proof {
            assert(shape@.take(i + 1).drop_last() =~= shape@.take(i as int));
            lemma_size_positive(shape@, i + 1);
        }
        match acc.checked_mul(shape[i]) {
            Some(next) => {
                acc = next;
            },
            None => {
                return None;
            },
        }
        i += 1;
    }
    assert(shape@.take(shape.len() as int) =~= shape@);
    Some(acc)
}

/// Whether a tensor of shape `shape` can stand in for one of shape `target`.
pub fn can_broadcast(shape: &Vec<usize>, target: &Vec<usize>) -> (r: bool)
    ensures
        r == broadcasts_to(shape@, target@),
{
    if shape.len() > target.len() {
        return false;
    }
    let lead: usize = target.len() - shape.len();
    let mut k: usize = 0;
    while k < shape.len()
        invariant
            k <= shape.len(),
            shape.len() <= target.len(),
            lead == target.len() - shape.len(),
            forall|j: int|
                0 <= j < k ==> (#[trigger] shape@[j] == target@[j + target.len() - shape.len()]
                    || shape@[j] == 1),
        decreases shape.len() - k,
    {
        if shape[k] != target[k + lead] && shape[k] != 1 {
            assert(!(shape@[k as int] == target@[k + target.len() - shape.len()] || shape@[k as int]
                == 1));
            return false;
        }
        k += 1;
    }
    true
}

/// The shape that two operands are stretched to, if they agree.
pub fn broadcast_shape(a: &Vec<usize>, b: &Vec<usize>) -> (r: Option<Vec<usize>>)
    ensures
        match r {
            Some(v) => broadcast_of(a@, b@) == Some(v@),
            None => broadcast_of(a@, b@) is None,
        },
{
    let la: usize = a.len();
    let lb: usize = b.len();
    let n: usize = if la >= lb {
        la
    } else {
        lb
    };
    let mut out: Vec<usize> = Vec::new();
    let mut i: usize = 0;
    while i < n
        invariant
            i <= n,
            la == a.len(),
            lb == b.len(),
            n == common_rank(a@, b@),
            out.len() == i,
            forall|j: int| 0 <= j < i ==> out@[j] == common_axis(a@, b@, n - 1 - j),
            forall|k: int|
                n - i <= k < la && k < lb ==> (#[trigger] axis_from_end(a@, k) == axis_from_end(
                    b@,
                    k,
                ) || axis_from_end(a@, k) == 1 || axis_from_end(b@, k) == 1),
        decreases n - i,
    {
        let k: usize = n - 1 - i;
        let axis: usize = if k >= la {
            b[lb - 1 - k]
        } else if k >= lb {
            a[la - 1 - k]
        } else {
            let x: usize = a[la - 1 - k];
            let y: usize = b[lb - 1 - k];
            if x != y && x != 1 && y != 1 {
                assert(!(axis_from_end(a@, k as int) == axis_from_end(b@, k as int)
                    || axis_from_end(a@, k as int) == 1 || axis_from_end(b@, k as int) == 1));
                return None;
            }
            if x == 1 {
                y
            } else {
                x
            }
        };
        out.push(axis);
        i += 1;
    }
    assert(out@ =~= broadcast_of(a@, b@)->0);
    Some(out)
}

/// Where element `i` of the target is read from, counting only the first `ls`
/// axes of the operand and the first `lt` of the target.
fn source_offset_among(
    shape: &Vec<usize>,
    target: &Vec<usize>,
    ls: usize,
    lt: usize,
    i: usize,
) -> (r: usize)
    requires
        ls <= shape.len(),
        lt <= target.len(),
        broadcasts_to(shape@.take(ls as int), target@.take(lt as int)),
        i < size(target@.take(lt as int)),
        size(shape@.take(ls as int)) <= usize::MAX,
    ensures
        r == source_index(shape@.take(ls as int), target@.take(lt as int), i as int),
        r < size(shape@.take(ls as int)),
    decreases ls,
{
    if ls == 0 {
        return 0;
    }
    let ghost s = shape@.take(ls as int);
    let ghost t = target@.take(lt as int);
    proof {
        lemma_broadcasts_to_rest(s, t);
        lemma_source_index_bound(s, t, i as int);
        assert(s.drop_last() =~= shape@.take(ls - 1));
        assert(t.drop_last() =~= target@.take(lt - 1));
        lemma_size_positive(t, lt - 1);
        assert(t.take(lt - 1) =~= t.drop_last());
        lemma_size_positive(t, lt as int);
    }
    let n: usize = target[lt - 1];
    let m: usize = shape[ls - 1];
    proof {
        let a = size(t.drop_last()) as int;
        assert(0 <= (i as int) / (n as int) < a) by (nonlinear_arith)
            requires
                0 <= i < a * n,
                n > 0,
                a > 0,
        ;
        let b = size(s.drop_last()) as int;
        assert(b <= b * m) by (nonlinear_arith)
            requires
                m >= 1,
                b >= 0,
        ;
    }
    let rest: usize = source_offset_among(shape, target, ls - 1, lt - 1, i / n);
    let c: usize = (i % n) % m;
    proof {
        let b = size(s.drop_last()) as int;
        assert(0 <= rest * m + c < b * m && 0 <= rest * m <= rest * m + c) by (nonlinear_arith)
            requires
                0 <= rest < b,
                0 <= c < m,
        ;
    }
    rest * m + c
}

/// Where element `i` of a tensor of shape `target` is read from in an operand
/// of shape `shape` stretched to it.
pub fn source_offset(shape: &Vec<usize>, target: &Vec<usize>, i: usize) -> (r: usize)
    requires
        broadcasts_to(shape@, target@),
        i < size(target@),
        size(shape@) <= usize::MAX,
    ensures
        r == source_index(shape@, target@, i as int),
        r < size(shape@),
{
    assert(shape@.take(shape.len() as int) =~= shape@);
    assert(target@.take(target.len() as int) =~= target@);
    source_offset_among(shape, target, shape.len(), target.len(), i)
}

/// Whether a shape has the one axis of length `n`.
pub fn is_vector_shape(shape: &Vec<usize>, n: usize) -> (r: bool)
    ensures
        r == (shape@ == seq![n]),
{
    if shape.len() == 1 && shape[0] == n {
        assert(shape@ =~= seq![n]);
        true
    } else {
        false
    }
}

/// Whether a shape has the two axes of lengths `rows` and `cols`.
pub fn is_matrix_shape(shape: &Vec<usize>, rows: usize, cols: usize) -> (r: bool)
    ensures
        r == (shape@ == seq![rows, cols]),
{
    if shape.len() == 2 && shape[0] == rows && shape[1] == cols {
        assert(shape@ =~= seq![rows, cols]);
        true
    } else {
        false
    }
}

/// Whether a shape has no axes.
pub fn is_scalar_shape(shape: &Vec<usize>) -> (r: bool)
    ensures
        r == (shape@ == Seq::<usize>::empty()),
{
    if shape.len() == 0 {
        assert(shape@ =~= Seq::<usize>::empty());
        true
    } else {
        false
    }
}

} // verus!
