//! Tensor types (element type and shape) and the shape arithmetic used when
//! compiling a policy network: broadcasting, gathering and axis wrapping.
use itertools::Itertools;
use std::ops::Range;
use vstd::prelude::*;

verus! {

/// The type of the elements of a tensor.
#[derive(Copy, Clone, Debug, PartialEq, Eq, Structural)]
pub enum ElementType {
    F32,
    I64,
}

/// Why a tensor type could not be computed.
#[derive(Copy, Clone, Debug, PartialEq, Eq, Structural)]
pub enum TensorError {
    /// Two dimensions cannot be broadcast one onto the other.
    IncompatibleDimensions,
    /// A broadcast was asked of no tensor at all.
    NoTensors,
    /// An axis lies outside the rank of the tensor.
    InvalidAxis,
    /// The data of a tensor does not have the size of its type.
    InvalidDataLength,
    /// The operands of an element-wise operation differ in element type.
    ElementTypeMismatch,
}

impl ElementType {
    /// The size of one element, in bytes.
    pub open spec fn byte_len(self) -> nat {
        match self {
            ElementType::F32 => 4,
            ElementType::I64 => 8,
        }
    }

    pub fn len(&self) -> (r: usize)
        ensures
            r == self.byte_len(),
    {
        match self {
            ElementType::F32 => 4,
            ElementType::I64 => 8,
        }
    }
}

// ---------------------------------------------------------------------------
// Axis wrapping
// ---------------------------------------------------------------------------

/// An index into a sequence of length `len`, where a negative index counts
/// from the end: valid indices are `-len..len`.
pub open spec fn wrapped_index(index: int, len: int) -> Option<int> {
    if 0 <= index < len {
        Some(index)
    } else if -len <= index < 0 {
        Some(len + index)
    } else {
        None
    }
}

/// The end of a range into a sequence of length `len`: as
/// [`wrapped_index`], except that `len` itself is valid.
pub open spec fn wrapped_end_index(index: int, len: int) -> Option<int> {
    if 0 <= index <= len {
        Some(index)
    } else if -len <= index < 0 {
        Some(len + index)
    } else {
        None
    }
}

/// Both ends of a range wrapped, or `None` where either is out of range.
pub open spec fn wrapped_range(start: int, end: int, len: int) -> Option<(int, int)> {
    match (wrapped_index(start, len), wrapped_end_index(end, len)) {
        (Some(s), Some(e)) => Some((s, e)),
        _ => None,
    }
}

/// Whether an optional machine index is the given optional integer.
pub open spec fn same_index(r: Option<usize>, s: Option<int>) -> bool {
    match (r, s) {
        (Some(a), Some(b)) => a as int == b,
        (None, None) => true,
        _ => false,
    }
}

pub fn wrap_index(index: i64, len: usize) -> (r: Option<usize>)
    requires
        len <= i64::MAX,
    ensures
        same_index(r, wrapped_index(index as int, len as int)),
{
    if 0 <= index && index < len as i64 {
        Some(index as usize)
    } else if -(len as i64) <= index && index < 0 {
        Some((len as i64 + index) as usize)
    } else {
        None
    }
}

fn wrap_end_index(index: i64, len: usize) -> (r: Option<usize>)
    requires
        len <= i64::MAX,
    ensures
        same_index(r, wrapped_end_index(index as int, len as int)),
{
    if 0 <= index && index <= len as i64 {
        Some(index as usize)
    } else if -(len as i64) <= index && index < 0 {
        Some((len as i64 + index) as usize)
    } else {
        None
    }
}

pub fn wrap_range(range: Range<i64>, len: usize) -> (r: Option<Range<usize>>)
    requires
        len <= i64::MAX,
    ensures
        match wrapped_range(range.start as int, range.end as int, len as int) {
            Some((s, e)) => r matches Some(rr) && rr.start == s && rr.end == e,
            None => r is None,
        },
{
    match (wrap_index(range.start, len), wrap_end_index(range.end, len)) {
        (Some(start), Some(end)) => Some(start..end),
        _ => None,
    }
}

// ---------------------------------------------------------------------------
// Shapes
// ---------------------------------------------------------------------------

/// The number of elements of a tensor of the given shape.
pub open spec fn shape_product(shape: Seq<usize>) -> nat
    decreases shape.len(),
{
    if shape.len() == 0 {
        1
    } else {
        shape_product(shape.drop_last()) * (shape.last() as nat)
    }
}

/// The dimension along `axis` (negative axes count from the last), if the
/// axis lies within the rank.
pub open spec fn dim_at(shape: Seq<usize>, axis: int) -> Option<int> {
    match wrapped_index(axis, shape.len() as int) {
        Some(i) => Some(shape[i] as int),
        None => None,
    }
}

/// Whether the size in bytes of a tensor of the given type can be computed
/// without overflow: every partial product of the dimensions, and the
/// total size, fit in a `usize`.
pub open spec fn len_fits(elem: ElementType, shape: Seq<usize>) -> bool {
    &&& forall|k: int| 0 <= k <= shape.len() ==> #[trigger] shape_product(shape.take(k)) <= usize::MAX
    &&& elem.byte_len() * shape_product(shape) <= usize::MAX
}

/// Whether the size in bytes of a tensor of `elem` elements and shape
/// `shape` can be computed without overflow (see [`len_fits`]).
pub fn fits_len(elem: ElementType, shape: &[usize]) -> (r: bool)
    ensures
        r == len_fits(elem, shape@),
{
    let n = shape.len();
    let mut product: usize = 1;
    let mut k: usize = 0;
    assert(shape@.take(0) =~= Seq::<usize>::empty());
    while k < n
        invariant
            n == shape@.len(),
            k <= n,
            product == shape_product(shape@.take(k as int)),
            forall|j: int| 0 <= j <= k ==> #[trigger] shape_product(shape@.take(j)) <= usize::MAX,
        decreases n - k,
    {
        assert(shape@.take(k + 1).drop_last() =~= shape@.take(k as int));
        match product.checked_mul(shape[k]) {
            Some(p) => {
                product = p;
            },
            None => {
                assert(shape_product(shape@.take(k + 1)) > usize::MAX);
                return false;
            },
        }
        k = k + 1;
    }
    assert(shape@.take(n as int) =~= shape@);
    match elem.len().checked_mul(product) {
        Some(_) => true,
        None => false,
    }
}

/// The `j`-th index tuple of a tensor of the given shape, counting in row-major
/// order (the last axis varies fastest).
pub open spec fn index_tuple(shape: Seq<usize>, j: int) -> Seq<usize> {
    Seq::new(
        shape.len(),
        |k: int|
            ((j / shape_product(shape.subrange(k + 1, shape.len() as int)) as int) % (
            shape[k] as int)) as usize,
    )
}

/// Calls `multi_cartesian_product` of itertools on the ranges `0..d` of the
/// dimensions `d` of `shape`. Its contract claims that the result lists every
/// index tuple of the shape once, in row-major order: one empty tuple for an
/// empty shape, none where a dimension is zero.
#[verifier::external_body]
fn cartesian_indices(shape: &[usize]) -> (r: Vec<Vec<usize>>)
    requires
        shape_product(shape@) <= usize::MAX,
    ensures
        r@.len() == shape_product(shape@),
        forall|j: int| 0 <= j < r@.len() ==> #[trigger] r@[j]@ == index_tuple(shape@, j),
{
    shape.iter().map(|&i| 0..i).multi_cartesian_product().collect()
}

/// The broadcast of one dimension onto another, in one direction: `b` must
/// be missing, 1, or equal to `a`, and `a` must be present.
pub open spec fn unidirectional_dim(a: Option<int>, b: Option<int>) -> Option<int> {
    match (a, b) {
        (Some(x), None) => Some(x),
        (Some(x), Some(y)) => if y == 1 || x == y {
            Some(x)
        } else {
            None
        },
        _ => None,
    }
}

pub open spec fn max_rank(a: Seq<usize>, b: Seq<usize>) -> int {
    if a.len() >= b.len() {
        a.len() as int
    } else {
        b.len() as int
    }
}

/// The `k`-th dimension of the unidirectional broadcast of `b` onto `a`. It
/// is read along axis `-(rank - 1 - k)` of both shapes, so the last
/// dimension comes from axis 0 and the others count from the end.
pub open spec fn unidirectional_axis(a: Seq<usize>, b: Seq<usize>, k: int) -> Option<int> {
    let i = max_rank(a, b) - 1 - k;
    unidirectional_dim(dim_at(a, -i), dim_at(b, -i))
}

/// The shape of the unidirectional broadcast of `b` onto `a`, or `None`
/// where a dimension is incompatible.
pub open spec fn unidirectional_shape(a: Seq<usize>, b: Seq<usize>) -> Option<Seq<usize>> {
    let rank = max_rank(a, b);
    if forall|k: int| 0 <= k < rank ==> #[trigger] unidirectional_axis(a, b, k) is Some {
        Some(Seq::new(rank as nat, |k: int| unidirectional_axis(a, b, k)->0 as usize))
    } else {
        None
    }
}

/// One step of the multidirectional broadcast of a dimension: a missing
/// dimension or 1 keeps the accumulated one, an accumulated 1 takes the
/// new one, and otherwise both must agree.
pub open spec fn multidirectional_step(acc: int, d: Option<int>) -> Option<int> {
    match d {
        None => Some(acc),
        Some(b) => if b == 1 {
            Some(acc)
        } else if acc == 1 {
            Some(b)
        } else if acc == b {
            Some(acc)
        } else {
            None
        },
    }
}

/// The broadcast of axis `i` of the first `n` shapes, starting from 1.
pub open spec fn multidirectional_axis(shapes: Seq<Seq<usize>>, i: int, n: nat) -> Option<int>
    decreases n,
{
    if n == 0 {
        Some(1)
    } else {
        match multidirectional_axis(shapes, i, (n - 1) as nat) {
            Some(acc) => multidirectional_step(acc, dim_at(shapes[n - 1], i)),
            None => None,
        }
    }
}

/// The largest rank among the first `n` shapes.
pub open spec fn max_rank_of(shapes: Seq<Seq<usize>>, n: nat) -> int
    decreases n,
{
    if n == 0 {
        0
    } else {
        let m = max_rank_of(shapes, (n - 1) as nat);
        if shapes[n - 1].len() > m {
            shapes[n - 1].len() as int
        } else {
            m
        }
    }
}

/// The shape of the multidirectional broadcast of all `shapes`. Axes are
/// counted from the front of every shape.
pub open spec fn multidirectional_shape(shapes: Seq<Seq<usize>>) -> Result<Seq<usize>, TensorError> {
    let n = shapes.len();
    let rank = max_rank_of(shapes, n);
    if n == 0 {
        Err(TensorError::NoTensors)
    } else if forall|i: int| 0 <= i < rank ==> #[trigger] multidirectional_axis(shapes, i, n) is Some {
        Ok(Seq::new(rank as nat, |i: int| multidirectional_axis(shapes, i, n)->0 as usize))
    } else {
        Err(TensorError::IncompatibleDimensions)
    }
}

/// Once a step of the multidirectional broadcast of an axis fails, every
/// longer prefix fails too.
pub proof fn lemma_multidirectional_axis_stuck(shapes: Seq<Seq<usize>>, i: int, m: nat, n: nat)
    requires
        m <= n,
        multidirectional_axis(shapes, i, m) is None,
    ensures
        multidirectional_axis(shapes, i, n) is None,
    decreases n - m,
{
    if m < n {
        lemma_multidirectional_axis_stuck(shapes, i, m, (n - 1) as nat);
    }
}

/// Whether axis `i` of `shape` is present and other than 1.
pub open spec fn nontrivial_dim(shape: Seq<usize>, i: int) -> bool {
    dim_at(shape, i) matches Some(d) && d != 1
}

/// The broadcast of axis `i` of the first `n` shapes depends only on the
/// sizes other than 1 found there: it fails exactly where two of them
/// differ, and otherwise is that size, or 1 where there is none.
pub proof fn lemma_axis_char(shapes: Seq<Seq<usize>>, i: int, n: nat)
    requires
        n <= shapes.len(),
    ensures
        multidirectional_axis(shapes, i, n) is None <==> exists|j: int, k: int|
            0 <= j < n && 0 <= k < n && #[trigger] nontrivial_dim(shapes[j], i) && #[trigger] nontrivial_dim(shapes[k], i)
                && dim_at(shapes[j], i) != dim_at(shapes[k], i),
        multidirectional_axis(shapes, i, n) matches Some(v) ==> forall|j: int|
            0 <= j < n && #[trigger] nontrivial_dim(shapes[j], i) ==> dim_at(shapes[j], i) == Some(v),
        multidirectional_axis(shapes, i, n) matches Some(v) ==> (v == 1 || exists|j: int|
            0 <= j < n && #[trigger] nontrivial_dim(shapes[j], i) && dim_at(shapes[j], i) == Some(v)),
    decreases n,
{
    if n > 0 {
        let m = (n - 1) as nat;
        lemma_axis_char(shapes, i, m);
        let last = shapes[n - 1];
        match multidirectional_axis(shapes, i, m) {
            None => {
                let (j, k) = choose|j: int, k: int|
                    0 <= j < m && 0 <= k < m && #[trigger] nontrivial_dim(shapes[j], i) && #[trigger] nontrivial_dim(
                        shapes[k],
                        i,
                    ) && dim_at(shapes[j], i) != dim_at(shapes[k], i);
                assert(0 <= j < n && 0 <= k < n);
            },
            Some(a) => {
                if nontrivial_dim(last, i) {
                    let b = dim_at(last, i)->0;
                    if a != 1 && a != b {
                        let j = choose|j: int|
                            0 <= j < m && #[trigger] nontrivial_dim(shapes[j], i) && dim_at(shapes[j], i) == Some(a);
                        assert(nontrivial_dim(shapes[n - 1], i) && dim_at(shapes[j], i) != dim_at(shapes[n - 1], i));
                    } else {
                        assert(multidirectional_axis(shapes, i, n) == Some(b));
                        assert forall|j: int, k: int|
                            0 <= j < n && 0 <= k < n && #[trigger] nontrivial_dim(shapes[j], i)
                                && #[trigger] nontrivial_dim(shapes[k], i) implies dim_at(shapes[j], i) == dim_at(
                            shapes[k],
                            i,
                        ) by {
                            if j < m {
                                assert(dim_at(shapes[j], i) == Some(a));
                            }
                            if k < m {
                                assert(dim_at(shapes[k], i) == Some(a));
                            }
                        }
                        assert(0 <= n - 1 < n && nontrivial_dim(shapes[n - 1], i) && dim_at(shapes[n - 1], i) == Some(b));
                    }
                } else {
                    assert(multidirectional_axis(shapes, i, n) == Some(a));
                    assert forall|j: int, k: int|
                        0 <= j < n && 0 <= k < n && #[trigger] nontrivial_dim(shapes[j], i)
                            && #[trigger] nontrivial_dim(shapes[k], i) implies dim_at(shapes[j], i) == dim_at(
                        shapes[k],
                        i,
                    ) by {
                        assert(j < m && k < m);
                        assert(dim_at(shapes[j], i) == Some(a));
                        assert(dim_at(shapes[k], i) == Some(a));
                    }
                    if a != 1 {
                        let j = choose|j: int|
                            0 <= j < m && #[trigger] nontrivial_dim(shapes[j], i) && dim_at(shapes[j], i) == Some(a);
                        assert(0 <= j < n);
                    }
                }
            },
        }
    }
}

/// The largest rank among the first `n` shapes is the rank of one of them,
/// and no smaller than any.
pub proof fn lemma_max_rank_char(shapes: Seq<Seq<usize>>, n: nat)
    requires
        n <= shapes.len(),
    ensures
        max_rank_of(shapes, n) >= 0,
        forall|j: int| 0 <= j < n ==> #[trigger] shapes[j].len() <= max_rank_of(shapes, n),
        n > 0 ==> exists|j: int| 0 <= j < n && #[trigger] shapes[j].len() == max_rank_of(shapes, n),
    decreases n,
{
    if n > 0 {
        lemma_max_rank_char(shapes, (n - 1) as nat);
        if max_rank_of(shapes, n) == shapes[n - 1].len() {
            assert(shapes[n - 1].len() == max_rank_of(shapes, n));
        } else {
            if n > 1 {
                let j = choose|j: int| 0 <= j < n - 1 && #[trigger] shapes[j].len() == max_rank_of(shapes, (n - 1) as nat);
                assert(0 <= j < n);
            }
        }
    }
}

/// Whether every shape of `a` is among those of `b`.
pub open spec fn shapes_among(a: Seq<Seq<usize>>, b: Seq<Seq<usize>>) -> bool {
    forall|j: int| 0 <= j < a.len() ==> b.contains(#[trigger] a[j])
}

/// Two lists holding the same shapes broadcast each axis alike.
proof fn lemma_axis_same_shapes(a: Seq<Seq<usize>>, b: Seq<Seq<usize>>, i: int)
    requires
        shapes_among(a, b),
        shapes_among(b, a),
    ensures
        multidirectional_axis(a, i, a.len()) == multidirectional_axis(b, i, b.len()),
{
    lemma_axis_char(a, i, a.len());
    lemma_axis_char(b, i, b.len());
    let ra = multidirectional_axis(a, i, a.len());
    let rb = multidirectional_axis(b, i, b.len());
    // A conflict in one list is a conflict in the other.
    if ra is None {
        let (j, k) = choose|j: int, k: int|
            0 <= j < a.len() && 0 <= k < a.len() && #[trigger] nontrivial_dim(a[j], i) && #[trigger] nontrivial_dim(a[k], i)
                && dim_at(a[j], i) != dim_at(a[k], i);
        assert(b.contains(a[j]) && b.contains(a[k]));
        let j2 = choose|j2: int| 0 <= j2 < b.len() && b[j2] == a[j];
        let k2 = choose|k2: int| 0 <= k2 < b.len() && b[k2] == a[k];
        assert(nontrivial_dim(b[j2], i) && nontrivial_dim(b[k2], i));
    } else if rb is None {
        let (j, k) = choose|j: int, k: int|
            0 <= j < b.len() && 0 <= k < b.len() && #[trigger] nontrivial_dim(b[j], i) && #[trigger] nontrivial_dim(b[k], i)
                && dim_at(b[j], i) != dim_at(b[k], i);
        assert(a.contains(b[j]) && a.contains(b[k]));
        let j2 = choose|j2: int| 0 <= j2 < a.len() && a[j2] == b[j];
        let k2 = choose|k2: int| 0 <= k2 < a.len() && a[k2] == b[k];
        assert(nontrivial_dim(a[j2], i) && nontrivial_dim(a[k2], i));
    } else {
        let va = ra->0;
        let vb = rb->0;
        if va != 1 {
            let j = choose|j: int| 0 <= j < a.len() && #[trigger] nontrivial_dim(a[j], i) && dim_at(a[j], i) == Some(va);
            assert(b.contains(a[j]));
            let j2 = choose|j2: int| 0 <= j2 < b.len() && b[j2] == a[j];
            assert(nontrivial_dim(b[j2], i));
        } else if vb != 1 {
            let j = choose|j: int| 0 <= j < b.len() && #[trigger] nontrivial_dim(b[j], i) && dim_at(b[j], i) == Some(vb);
            assert(a.contains(b[j]));
            let j2 = choose|j2: int| 0 <= j2 < a.len() && a[j2] == b[j];
            assert(nontrivial_dim(a[j2], i));
        }
    }
}

/// Broadcasting the same shapes in any order, or with repeats, gives the
/// same result: it depends only on which shapes are broadcast.
pub proof fn lemma_multidirectional_same_shapes(a: Seq<Seq<usize>>, b: Seq<Seq<usize>>)
    requires
        shapes_among(a, b),
        shapes_among(b, a),
    ensures
        multidirectional_shape(a) == multidirectional_shape(b),
{
    lemma_max_rank_char(a, a.len());
    lemma_max_rank_char(b, b.len());
    if a.len() > 0 {
        assert(b.contains(a[0]));
    }
    if b.len() > 0 {
        assert(a.contains(b[0]));
    }
    if a.len() > 0 && b.len() > 0 {
        let ra = max_rank_of(a, a.len());
        let rb = max_rank_of(b, b.len());
        let ja = choose|j: int| 0 <= j < a.len() && #[trigger] a[j].len() == ra;
        let jb = choose|j: int| 0 <= j < b.len() && #[trigger] b[j].len() == rb;
        assert(b.contains(a[ja]));
        let k = choose|k: int| 0 <= k < b.len() && b[k] == a[ja];
        assert(b[k].len() <= rb);
        assert(a.contains(b[jb]));
        let k2 = choose|k2: int| 0 <= k2 < a.len() && a[k2] == b[jb];
        assert(a[k2].len() <= ra);
        assert(ra == rb);
        assert forall|i: int| #[trigger] multidirectional_axis(a, i, a.len()) == multidirectional_axis(b, i, b.len()) by {
            lemma_axis_same_shapes(a, b, i);
        }
        let all_a = forall|i: int| 0 <= i < ra ==> #[trigger] multidirectional_axis(a, i, a.len()) is Some;
        let all_b = forall|i: int| 0 <= i < rb ==> #[trigger] multidirectional_axis(b, i, b.len()) is Some;
        assert(all_a == all_b) by {
            if all_a {
                assert forall|i: int| 0 <= i < rb implies #[trigger] multidirectional_axis(b, i, b.len()) is Some by {
                    assert(multidirectional_axis(a, i, a.len()) is Some);
                }
            }
            if all_b {
                assert forall|i: int| 0 <= i < ra implies #[trigger] multidirectional_axis(a, i, a.len()) is Some by {
                    assert(multidirectional_axis(b, i, b.len()) is Some);
                }
            }
        }
        if all_a {
            assert(Seq::new(ra as nat, |i: int| multidirectional_axis(a, i, a.len())->0 as usize) =~= Seq::new(
                rb as nat,
                |i: int| multidirectional_axis(b, i, b.len())->0 as usize,
            ));
        }
    }
}

/// Broadcasting a permutation of the shapes gives the same result.
pub proof fn lemma_multidirectional_permutation(a: Seq<Seq<usize>>, b: Seq<Seq<usize>>)
    requires
        a.to_multiset() == b.to_multiset(),
    ensures
        multidirectional_shape(a) == multidirectional_shape(b),
{
    assert forall|j: int| 0 <= j < a.len() implies b.contains(#[trigger] a[j]) by {
        vstd::seq_lib::to_multiset_contains(a, a[j]);
        vstd::seq_lib::to_multiset_contains(b, a[j]);
        assert(a.contains(a[j]));
    }
    assert forall|j: int| 0 <= j < b.len() implies a.contains(#[trigger] b[j]) by {
        vstd::seq_lib::to_multiset_contains(a, b[j]);
        vstd::seq_lib::to_multiset_contains(b, b[j]);
        assert(b.contains(b[j]));
    }
    lemma_multidirectional_same_shapes(a, b);
}

/// Broadcasting two shapes in either order gives the same result.
pub proof fn lemma_multidirectional_symmetric(a: Seq<usize>, b: Seq<usize>)
    ensures
        multidirectional_shape(seq![a, b]) == multidirectional_shape(seq![b, a]),
{
    let ab = seq![a, b];
    let ba = seq![b, a];
    assert(ab[0] == a && ab[1] == b && ba[0] == b && ba[1] == a);
    assert(max_rank_of(ab, 0) == 0 && max_rank_of(ba, 0) == 0);
    assert(max_rank_of(ab, 1) == a.len());
    assert(max_rank_of(ba, 1) == b.len());
    assert(max_rank_of(ab, 2) == max_rank_of(ba, 2));
    assert forall|i: int| #[trigger] multidirectional_axis(ab, i, 2) == multidirectional_axis(ba, i, 2) by {
        assert(multidirectional_axis(ab, i, 0) == Some(1int));
        assert(multidirectional_axis(ba, i, 0) == Some(1int));
        assert(multidirectional_axis(ab, i, 1) == multidirectional_step(1, dim_at(a, i)));
        assert(multidirectional_axis(ba, i, 1) == multidirectional_step(1, dim_at(b, i)));
    }
    let rank = max_rank_of(ab, 2);
    let all_ab = forall|i: int| 0 <= i < rank ==> #[trigger] multidirectional_axis(ab, i, 2) is Some;
    let all_ba = forall|i: int| 0 <= i < rank ==> #[trigger] multidirectional_axis(ba, i, 2) is Some;
    assert(all_ab == all_ba) by {
        if all_ab {
            assert forall|i: int| 0 <= i < rank implies #[trigger] multidirectional_axis(ba, i, 2) is Some by {
                assert(multidirectional_axis(ab, i, 2) is Some);
            }
        }
        if all_ba {
            assert forall|i: int| 0 <= i < rank implies #[trigger] multidirectional_axis(ab, i, 2) is Some by {
                assert(multidirectional_axis(ba, i, 2) is Some);
            }
        }
    }
    if all_ab {
        assert(Seq::new(rank as nat, |i: int| multidirectional_axis(ab, i, 2)->0 as usize) =~= Seq::new(
            rank as nat,
            |i: int| multidirectional_axis(ba, i, 2)->0 as usize,
        ));
    }
}

/// The shape of a gather along the (already wrapped) axis `axis`: that axis
/// of `data` is replaced by all the axes of `indices`.
pub open spec fn gather_shape(data: Seq<usize>, indices: Seq<usize>, axis: int) -> Seq<usize> {
    data.subrange(0, axis) + indices + data.subrange(axis + 1, data.len() as int)
}

/// The type of a tensor: its element type and its shape.
#[derive(Debug, PartialEq, Eq)]
pub struct TensorType {
    elem_ty: ElementType,
    shape: Vec<usize>,
}

impl Clone for TensorType {
    fn clone(&self) -> (r: Self)
        ensures
            r.elem_view() == self.elem_view(),
            r.shape_view() == self.shape_view(),
    {
        proof {
            use_type_invariant(self);
        }
        let shape = self.shape.clone();
        assert(shape@ =~= self.shape@);
        TensorType { elem_ty: self.elem_ty, shape }
    }
}

impl TensorType {
    /// The rank of a tensor type fits the signed axis arithmetic.
    #[verifier::type_invariant]
    closed spec fn rank_fits(self) -> bool {
        self.shape@.len() <= i64::MAX
    }

    /// The element type.
    pub closed spec fn elem_view(self) -> ElementType {
        self.elem_ty
    }

    /// The dimensions, outermost first.
    pub closed spec fn shape_view(self) -> Seq<usize> {
        self.shape@
    }

    pub fn new(elem_ty: ElementType, shape: Vec<usize>) -> (r: Self)
        requires
            shape@.len() <= i64::MAX,
        ensures
            r.elem_view() == elem_ty,
            r.shape_view() == shape@,
    {
        TensorType { elem_ty, shape }
    }

    pub fn elem_ty(&self) -> (r: ElementType)
        ensures
            r == self.elem_view(),
    {
        self.elem_ty
    }

    pub fn shape(&self) -> (r: &[usize])
        ensures
            r@ == self.shape_view(),
    {
        self.shape.as_slice()
    }

    pub fn rank(&self) -> (r: usize)
        ensures
            r == self.shape_view().len(),
            r <= i64::MAX,
    {
        proof {
            use_type_invariant(self);
        }
        self.shape.len()
    }

    /// The size of a tensor of this type, in bytes.
    pub fn len(&self) -> (r: usize)
        requires
            len_fits(self.elem_view(), self.shape_view()),
        ensures
            r == self.elem_view().byte_len() * shape_product(self.shape_view()),
    {
        let n = self.shape.len();
        let mut product: usize = 1;
        let mut k: usize = 0;
        assert(self.shape@.take(0) =~= Seq::<usize>::empty());
        while k < n
            invariant
                n == self.shape@.len(),
                k <= n,
                product == shape_product(self.shape@.take(k as int)),
                forall|j: int|
                    0 <= j <= self.shape@.len() ==> #[trigger] shape_product(self.shape@.take(j))
                        <= usize::MAX,
            decreases n - k,
        {
            assert(self.shape@.take(k + 1).drop_last() =~= self.shape@.take(k as int));
            assert(shape_product(self.shape@.take(k + 1)) <= usize::MAX);
            product = product * self.shape[k];
            k = k + 1;
        }
        assert(self.shape@.take(n as int) =~= self.shape@);
        self.elem_ty.len() * product
    }

    pub fn dim(&self, axis: i64) -> (r: Option<usize>)
        ensures
            same_index(r, dim_at(self.shape_view(), axis as int)),
    {
        proof {
            use_type_invariant(self);
        }
        match wrap_index(axis, self.shape.len()) {
            Some(axis) => Some(self.shape[axis]),
            None => None,
        }
    }

    pub fn dims(&self, range: Range<i64>) -> (r: Option<&[usize]>)
        requires
            wrapped_range(range.start as int, range.end as int, self.shape_view().len() as int)
                matches Some((s, e)) ==> s <= e,
        ensures
            match wrapped_range(
                range.start as int,
                range.end as int,
                self.shape_view().len() as int,
            ) {
                Some((s, e)) => r matches Some(d) && d@ == self.shape_view().subrange(s, e),
                None => r is None,
            },
    {
        proof {
            use_type_invariant(self);
        }
        match wrap_range(range, self.shape.len()) {
            Some(r) => Some(vstd::slice::slice_subrange(self.shape.as_slice(), r.start, r.end)),
            None => None,
        }
    }

    /// The type of the result of an operation that broadcasts `b` onto `a`:
    /// every dimension of `b` must be 1 or match the one of `a`.
    pub fn unidirectional_broadcast(elem_ty: ElementType, a: &TensorType, b: &TensorType) -> (r:
        Result<TensorType, TensorError>)
        ensures
            match unidirectional_shape(a.shape_view(), b.shape_view()) {
                Some(shape) => r matches Ok(t) && t.elem_view() == elem_ty && t.shape_view()
                    == shape,
                None => r == Err::<TensorType, TensorError>(TensorError::IncompatibleDimensions),
            },
    {
        let a_rank = a.rank();
        let b_rank = b.rank();
        let rank = if a_rank >= b_rank {
            a_rank
        } else {
            b_rank
        };
        let ghost sa = a.shape_view();
        let ghost sb = b.shape_view();
        let mut shape: Vec<usize> = Vec::new();
        let mut k: usize = 0;
        while k < rank
            invariant
                rank == max_rank(sa, sb),
                rank <= i64::MAX,
                sa == a.shape_view(),
                sb == b.shape_view(),
                k <= rank,
                shape@.len() == k,
                forall|j: int| 0 <= j < k ==> #[trigger] unidirectional_axis(sa, sb, j) is Some,
                forall|j: int|
                    0 <= j < k ==> shape@[j] as int == #[trigger] unidirectional_axis(
                        sa,
                        sb,
                        j,
                    )->0,
            decreases rank - k,
        {
            let i = rank - 1 - k;
            let axis: i64 = -(i as i64);
            let d = match (a.dim(axis), b.dim(axis)) {
                (Some(x), None) => x,
                (Some(x), Some(y)) => {
                    if y == 1 || x == y {
                        x
                    } else {
                        assert(unidirectional_axis(sa, sb, k as int) is None);
                        return Err(TensorError::IncompatibleDimensions);
                    }
                },
                _ => {
                    assert(unidirectional_axis(sa, sb, k as int) is None);
                    return Err(TensorError::IncompatibleDimensions);
                },
            };
            assert(unidirectional_axis(sa, sb, k as int) == Some(d as int));
            shape.push(d);
            k = k + 1;
        }
        let ghost expected = Seq::new(
            rank as nat,
            |j: int| unidirectional_axis(sa, sb, j)->0 as usize,
        );
        assert(shape@ =~= expected);
        Ok(TensorType::new(elem_ty, shape))
    }

    /// The type of the result of an elementwise operation on all `tys`:
    /// dimensions are matched from the front, and each must be 1 or agree
    /// with the others.
    pub fn multidirectional_broadcast(elem_ty: ElementType, tys: &[&TensorType]) -> (r: Result<
        TensorType,
        TensorError,
    >)
        ensures
            match multidirectional_shape(tys@.map_values(|t: &TensorType| t.shape_view())) {
                Ok(shape) => r matches Ok(t) && t.elem_view() == elem_ty && t.shape_view()
                    == shape,
                Err(e) => r == Err::<TensorType, TensorError>(e),
            },
    {
        let ghost shapes = tys@.map_values(|t: &TensorType| t.shape_view());
        let n = tys.len();
        if n == 0 {
            return Err(TensorError::NoTensors);
        }
        let mut rank: usize = 0;
        let mut j: usize = 0;
        while j < n
            invariant
                n == tys@.len(),
                shapes == tys@.map_values(|t: &TensorType| t.shape_view()),
                j <= n,
                rank == max_rank_of(shapes, j as nat),
                rank <= i64::MAX,
            decreases n - j,
        {
            let r = tys[j].rank();
            if r > rank {
                rank = r;
            }
            j = j + 1;
        }
        let mut shape: Vec<usize> = Vec::new();
        let mut i: usize = 0;
        while i < rank
            invariant
                n == tys@.len(),
                n > 0,
                shapes == tys@.map_values(|t: &TensorType| t.shape_view()),
                rank == max_rank_of(shapes, n as nat),
                rank <= i64::MAX,
                i <= rank,
                shape@.len() == i,
                forall|x: int|
                    0 <= x < i ==> #[trigger] multidirectional_axis(shapes, x, n as nat) is Some,
                forall|x: int|
                    0 <= x < i ==> shape@[x] as int == #[trigger] multidirectional_axis(
                        shapes,
                        x,
                        n as nat,
                    )->0,
            decreases rank - i,
        {
            let mut acc: usize = 1;
            let mut t: usize = 0;
            while t < n
                invariant
                    n == tys@.len(),
                    shapes == tys@.map_values(|t: &TensorType| t.shape_view()),
                    i < rank,
                    rank == max_rank_of(shapes, n as nat),
                    rank <= i64::MAX,
                    t <= n,
                    multidirectional_axis(shapes, i as int, t as nat) == Some(acc as int),
                decreases n - t,
            {
                let d = tys[t].dim(i as i64);
                assert(shapes[t as int] == tys@[t as int].shape_view());
                acc = match d {
                    None => acc,
                    Some(b) => {
                        if b == 1 {
                            acc
                        } else if acc == 1 {
                            b
                        } else if acc == b {
                            acc
                        } else {
                            proof {
                                lemma_multidirectional_axis_stuck(shapes, i as int, (t + 1) as nat, n as nat);
                            }
                            return Err(TensorError::IncompatibleDimensions);
                        }
                    },
                };
                t = t + 1;
            }
            shape.push(acc);
            i = i + 1;
        }
        let ghost expected = Seq::new(
            rank as nat,
            |x: int| multidirectional_axis(shapes, x, n as nat)->0 as usize,
        );
        assert(shape@ =~= expected);
        Ok(TensorType::new(elem_ty, shape))
    }

    /// The type of a gather of `indices` from `data` along `axis`: that axis of
    /// `data` is replaced by all the axes of `indices`.
    pub fn gather(data: &TensorType, indices: &TensorType, axis: i64) -> (r: Result<
        TensorType,
        TensorError,
    >)
        requires
            data.shape_view().len() + indices.shape_view().len() <= i64::MAX + 1,
        ensures
            match wrapped_index(axis as int, data.shape_view().len() as int) {
                Some(ax) => r matches Ok(t) && t.elem_view() == data.elem_view() && t.shape_view()
                    == gather_shape(data.shape_view(), indices.shape_view(), ax),
                None => r == Err::<TensorType, TensorError>(TensorError::InvalidAxis),
            },
    {
        let axis_index = match wrap_index(axis, data.rank()) {
            Some(a) => a,
            None => {
                return Err(TensorError::InvalidAxis);
            },
        };
        let ds = data.shape();
        let is = indices.shape();
        let mut shape: Vec<usize> = Vec::new();
        let mut k: usize = 0;
        while k < axis_index
            invariant
                k <= axis_index,
                axis_index < ds@.len(),
                shape@ == ds@.subrange(0, k as int),
            decreases axis_index - k,
        {
            shape.push(ds[k]);
            k = k + 1;
        }
        let mut k: usize = 0;
        while k < is.len()
            invariant
                k <= is@.len(),
                axis_index < ds@.len(),
                shape@ == ds@.subrange(0, axis_index as int) + is@.subrange(0, k as int),
            decreases is@.len() - k,
        {
            shape.push(is[k]);
            k = k + 1;
        }
        assert(is@.subrange(0, is@.len() as int) =~= is@);
        let mut k: usize = axis_index + 1;
        while k < ds.len()
            invariant
                axis_index < k <= ds@.len(),
                shape@ == ds@.subrange(0, axis_index as int) + is@ + ds@.subrange(
                    axis_index + 1,
                    k as int,
                ),
            decreases ds@.len() - k,
        {
            shape.push(ds[k]);
            k = k + 1;
        }
        Ok(TensorType::new(data.elem_ty(), shape))
    }

    /// Every index tuple of a tensor of this type, in row-major order.
    pub fn indices(&self) -> (r: Vec<Vec<usize>>)
        requires
            shape_product(self.shape_view()) <= usize::MAX,
        ensures
            r@.len() == shape_product(self.shape_view()),
            forall|j: int|
                0 <= j < r@.len() ==> #[trigger] r@[j]@ == index_tuple(self.shape_view(), j),
    {
        cartesian_indices(self.shape.as_slice())
    }
}

// ---------------------------------------------------------------------------
// Little-endian encoding
// ---------------------------------------------------------------------------

/// The unsigned value of little-endian bytes.
pub open spec fn le_value(b: Seq<u8>) -> nat
    decreases b.len(),
{
    if b.len() == 0 {
        0
    } else {
        b[0] as nat + 256 * le_value(b.drop_first())
    }
}

/// The `n` low bytes of `v`, least significant first.
pub open spec fn le_bytes(v: nat, n: nat) -> Seq<u8>
    decreases n,
{
    if n == 0 {
        Seq::empty()
    } else {
        seq![(v % 256) as u8] + le_bytes(v / 256, (n - 1) as nat)
    }
}

/// 256 to the power `n`.
pub open spec fn pow256(n: nat) -> nat
    decreases n,
{
    if n == 0 {
        1
    } else {
        256 * pow256((n - 1) as nat)
    }
}

/// The little-endian bytes of an `i64`.
pub open spec fn i64_le_bytes(x: i64) -> Seq<u8> {
    le_bytes((x as u64) as nat, 8)
}

/// The `i64` stored in eight little-endian bytes.
pub open spec fn i64_from_le(b: Seq<u8>) -> i64 {
    le_value(b) as i64
}

/// The little-endian encoding of all `values`, one after the other.
pub open spec fn i64s_le_bytes(values: Seq<i64>) -> Seq<u8>
    decreases values.len(),
{
    if values.len() == 0 {
        Seq::empty()
    } else {
        i64s_le_bytes(values.drop_last()) + i64_le_bytes(values.last())
    }
}

proof fn lemma_le_value_bound(b: Seq<u8>)
    ensures
        le_value(b) < pow256(b.len()),
    decreases b.len(),
{
    if b.len() > 0 {
        lemma_le_value_bound(b.drop_first());
    }
}

proof fn lemma_le_bytes_len(v: nat, n: nat)
    ensures
        le_bytes(v, n).len() == n,
    decreases n,
{
    if n > 0 {
        lemma_le_bytes_len(v / 256, (n - 1) as nat);
    }
}

/// Encoding the low `n` bytes of `v` and decoding them gives `v` back, where
/// `v` fits in `n` bytes.
proof fn lemma_le_round_trip(v: nat, n: nat)
    requires
        v < pow256(n),
    ensures
        le_value(le_bytes(v, n)) == v,
    decreases n,
{
    if n > 0 {
        lemma_le_bytes_len(v / 256, (n - 1) as nat);
        assert(v / 256 < pow256((n - 1) as nat)) by (nonlinear_arith)
            requires
                v < 256 * pow256((n - 1) as nat),
        ;
        lemma_le_round_trip(v / 256, (n - 1) as nat);
        assert(le_bytes(v, n).drop_first() =~= le_bytes(v / 256, (n - 1) as nat));
    }
}

/// Decoding the encoding of an `i64` gives it back.
pub proof fn lemma_i64_le_round_trip(x: i64)
    ensures
        i64_from_le(i64_le_bytes(x)) == x,
{
    assert(pow256(8) == 0x1_0000_0000_0000_0000) by {
        reveal_with_fuel(pow256, 9);
    }
    lemma_le_round_trip((x as u64) as nat, 8);
    assert(((x as u64) as nat) as i64 == x) by (bit_vector);
}

/// Appends the little-endian bytes of `x`.
fn push_i64_le(data: &mut Vec<u8>, x: i64)
    ensures
        final(data)@ == old(data)@ + i64_le_bytes(x),
{
    let mut u: u64 = x as u64;
    let mut k: usize = 0;
    while k < 8
        invariant
            k <= 8,
            data@ + le_bytes(u as nat, (8 - k) as nat) == old(data)@ + i64_le_bytes(x),
        decreases 8 - k,
    {
        let ghost before = data@;
        data.push((u % 256) as u8);
        assert(le_bytes(u as nat, (8 - k) as nat) == seq![(u % 256) as u8] + le_bytes(
            (u / 256) as nat,
            (8 - k - 1) as nat,
        ));
        assert(data@ + le_bytes((u / 256) as nat, (8 - k - 1) as nat) =~= before + le_bytes(
            u as nat,
            (8 - k) as nat,
        ));
        u = u / 256;
        k = k + 1;
    }
    assert(data@ + le_bytes(u as nat, 0) =~= data@);
}

/// The `i64` stored in the eight little-endian bytes `b`.
fn i64_from_le_bytes(b: &[u8]) -> (r: i64)
    requires
        b@.len() == 8,
    ensures
        r == i64_from_le(b@),
{
    let mut v: u64 = 0;
    let mut k: usize = 8;
    assert(pow256(7) == 0x100_0000_0000_0000) by {
        reveal_with_fuel(pow256, 8);
    }
    while k > 0
        invariant
            k <= 8,
            b@.len() == 8,
            pow256(7) == 0x100_0000_0000_0000,
            v as nat == le_value(b@.subrange(k as int, 8)),
        decreases k,
    {
        k = k - 1;
        let ghost rest = b@.subrange(k + 1, 8);
        proof {
            lemma_le_value_bound(rest);
            if rest.len() < 7 {
                lemma_pow256_monotonic(rest.len(), 7);
            }
        }
        assert(b@.subrange(k as int, 8).drop_first() =~= rest);
        v = v * 256 + b[k] as u64;
    }
    assert(b@.subrange(0, 8) =~= b@);
    v as i64
}

proof fn lemma_pow256_monotonic(a: nat, b: nat)
    requires
        a <= b,
    ensures
        pow256(a) <= pow256(b),
    decreases b,
{
    if a < b {
        lemma_pow256_monotonic(a, (b - 1) as nat);
    }
}

// ---------------------------------------------------------------------------
// Tensors
// ---------------------------------------------------------------------------

/// The offset into the data of a tensor, and the stride reached, after the
/// axes from `k` on have been walked from the last: axes of dimension 1 are
/// skipped, so that any index along them reads the single element there.
pub open spec fn raw_walk(shape: Seq<usize>, indices: Seq<usize>, elem: nat, k: nat) -> (int, int)
    decreases shape.len() - k,
{
    if k >= shape.len() {
        (0, elem as int)
    } else {
        let (i, stride) = raw_walk(shape, indices, elem, k + 1);
        if shape[k as int] == 1 {
            (i, stride)
        } else {
            (i + indices[k as int] * stride, stride * shape[k as int])
        }
    }
}

/// Whether the walk of [`raw_walk`] from axis `k` on stays within `usize`.
pub open spec fn raw_walk_fits(shape: Seq<usize>, indices: Seq<usize>, elem: nat, k: nat) -> bool
    decreases shape.len() - k,
{
    if k >= shape.len() {
        elem <= usize::MAX
    } else {
        let (i, stride) = raw_walk(shape, indices, elem, k + 1);
        &&& raw_walk_fits(shape, indices, elem, k + 1)
        &&& shape[k as int] != 1 ==> {
            &&& indices[k as int] * stride <= usize::MAX
            &&& i + indices[k as int] * stride <= usize::MAX
            &&& stride * shape[k as int] <= usize::MAX
        }
    }
}

/// Whether the element at `indices` can be read from a tensor of the given
/// type holding `len` bytes: there are no more indices than axes, every
/// axis of dimension other than 1 has an index, the offset computation stays
/// within `usize`, and the element lies within the data.
pub open spec fn element_readable(elem: ElementType, shape: Seq<usize>, len: nat, indices: Seq<usize>) -> bool {
    &&& indices.len() <= shape.len()
    &&& forall|k: int| 0 <= k < shape.len() && shape[k] != 1 ==> k < indices.len()
    &&& raw_walk_fits(shape, indices, elem.byte_len(), 0)
    &&& raw_walk(shape, indices, elem.byte_len(), 0).0 + elem.byte_len() <= len
}

/// The offset of the element at `indices`.
pub open spec fn element_offset(elem: ElementType, shape: Seq<usize>, indices: Seq<usize>) -> int {
    raw_walk(shape, indices, elem.byte_len(), 0).0
}

/// A shape of one axis has as many elements as its dimension.
pub proof fn lemma_shape_product_single(n: usize)
    ensures
        shape_product(seq![n]) == n,
        len_fits(ElementType::I64, seq![n]) <==> 8 * n <= usize::MAX,
{
    let shape = seq![n];
    assert(shape.drop_last() =~= Seq::<usize>::empty());
    assert(shape.take(0) =~= Seq::<usize>::empty());
    assert(shape.take(1) =~= shape);
    assert(shape_product(shape) == shape_product(shape.drop_last()) * (shape.last() as nat));
    assert(shape_product(shape.drop_last()) == 1);
    assert(1 * (n as nat) == n) by (nonlinear_arith);
}

/// The `i`-th element of a vector of `n` elements of `i64` is readable.
pub proof fn lemma_vector_readable(n: usize, len: nat, i: usize)
    requires
        i < n,
        len == 8 * n,
        len <= usize::MAX,
    ensures
        element_readable(ElementType::I64, seq![n], len, seq![i]),
{
    let shape = seq![n];
    let indices = seq![i];
    assert(raw_walk(shape, indices, 8, 1) == (0int, 8int));
    assert(raw_walk_fits(shape, indices, 8, 1));
    assert(8 * i + 8 <= 8 * n) by (nonlinear_arith)
        requires
            i < n,
    ;
}

/// The index tuple into `data` that the output tuple `out` of a gather
/// reads: the axes `start..start + r` of `out`, with `r` the rank of
/// `indices`, give way to the index that `indices` holds at them, wrapped by
/// the dimension of `data` along `start`. `None` where that index lies
/// outside the dimension.
pub open spec fn gather_source(data: Tensor, indices: Tensor, start: int, out: Seq<usize>) -> Option<
    Seq<usize>,
> {
    let r = indices.tensor_type().shape_view().len() as int;
    let v = indices.i64_element(out.subrange(start, start + r));
    match wrapped_index(v as int, data.tensor_type().shape_view()[start] as int) {
        Some(w) => Some(
            out.subrange(0, start) + seq![w as usize] + out.subrange(start + r, out.len() as int),
        ),
        None => None,
    }
}

/// The bytes that the output tuple `out` of a gather takes from `data`.
pub open spec fn gather_element(data: Tensor, indices: Tensor, start: int, out: Seq<usize>) -> Seq<u8> {
    match gather_source(data, indices, start, out) {
        Some(src) => data.element_bytes(src),
        None => Seq::empty(),
    }
}

/// The data of a gather into the output shape `shape`: the elements of the
/// first `n` output tuples, in row-major order.
pub open spec fn gather_bytes(data: Tensor, indices: Tensor, start: int, shape: Seq<usize>, n: nat) -> Seq<
    u8,
>
    decreases n,
{
    if n == 0 {
        Seq::empty()
    } else {
        gather_bytes(data, indices, start, shape, (n - 1) as nat) + gather_element(
            data,
            indices,
            start,
            index_tuple(shape, n - 1),
        )
    }
}

/// Whether a gather into the output shape `shape`, whose indices stand from
/// axis `start` on, reads only what is there: where there is any output
/// element, `start` is an axis of `data` whose dimension fits an `i64`,
/// `indices` holds `i64` elements, and every output tuple reads an index
/// that exists, lies within that dimension, and leads to an element of
/// `data`.
pub open spec fn gather_readable(data: Tensor, indices: Tensor, start: int, shape: Seq<usize>) -> bool {
    let r = indices.tensor_type().shape_view().len() as int;
    shape_product(shape) > 0 ==> {
        &&& start < data.tensor_type().shape_view().len()
        &&& data.tensor_type().shape_view()[start] <= i64::MAX
        &&& indices.tensor_type().elem_view() == ElementType::I64
        &&& forall|j: int|
            0 <= j < shape_product(shape) ==> {
                let out = #[trigger] index_tuple(shape, j);
                &&& indices.readable(out.subrange(start, start + r))
                &&& gather_source(data, indices, start, out) matches Some(src)
                &&& data.readable(src)
            }
    }
}

/// Whether a gather of `indices` from `data` along `axis` stays within its
/// data: where the axis is valid, the output fits in memory, and, where the
/// axis is valid for the output too, every read of [`gather_readable`] is.
pub open spec fn gather_in_bounds(data: Tensor, indices: Tensor, axis: int) -> bool {
    let ds = data.tensor_type().shape_view();
    let is = indices.tensor_type().shape_view();
    match wrapped_index(axis, ds.len() as int) {
        Some(ax) => {
            let shape = gather_shape(ds, is, ax);
            match wrapped_index(axis, shape.len() as int) {
                Some(start) => {
                    &&& len_fits(data.tensor_type().elem_view(), shape)
                    &&& gather_readable(data, indices, start, shape)
                },
                None => true,
            }
        },
        None => true,
    }
}

/// `t` with its axes `start..end` replaced by the single index `w`.
fn splice_index(t: &[usize], start: usize, end: usize, w: usize) -> (r: Vec<usize>)
    requires
        start <= end <= t@.len(),
    ensures
        r@ == t@.subrange(0, start as int) + seq![w] + t@.subrange(end as int, t@.len() as int),
{
    let mut r: Vec<usize> = Vec::new();
    let mut k: usize = 0;
    while k < start
        invariant
            k <= start <= end <= t@.len(),
            r@ == t@.subrange(0, k as int),
        decreases start - k,
    {
        r.push(t[k]);
        k = k + 1;
    }
    r.push(w);
    let mut k: usize = end;
    while k < t.len()
        invariant
            start <= end <= k <= t@.len(),
            r@ == t@.subrange(0, start as int) + seq![w] + t@.subrange(end as int, k as int),
        decreases t@.len() - k,
    {
        r.push(t[k]);
        k = k + 1;
    }
    r
}

/// Appends `b` to `out`.
fn push_bytes(out: &mut Vec<u8>, b: &[u8])
    ensures
        final(out)@ == old(out)@ + b@,
{
    let mut k: usize = 0;
    while k < b.len()
        invariant
            k <= b@.len(),
            out@ == old(out)@ + b@.subrange(0, k as int),
        decreases b@.len() - k,
    {
        out.push(b[k]);
        k = k + 1;
    }
    assert(b@.subrange(0, b@.len() as int) =~= b@);
}

/// The quotient of `x` by `y` rounded toward zero, as `i64` division gives it.
pub open spec fn trunc_div(x: int, y: int) -> int {
    if x >= 0 {
        x / y
    } else {
        -((-x) / y)
    }
}

/// The quotient of two `i64` values rounded toward zero fits an `i64`, but
/// for `i64::MIN` divided by -1.
proof fn lemma_trunc_div_fits(x: i64, y: i64)
    requires
        y != 0,
        !(x == i64::MIN && y == -1),
    ensures
        i64::MIN <= trunc_div(x as int, y as int) <= i64::MAX,
{
    let a: int = if x >= 0 {
        x as int
    } else {
        -(x as int)
    };
    let b: int = if y >= 0 {
        y as int
    } else {
        -(y as int)
    };
    assert(0 <= a / b <= a) by (nonlinear_arith)
        requires
            a >= 0,
            b >= 1,
    ;
    if b >= 2 {
        assert(a / b <= a / 2) by (nonlinear_arith)
            requires
                a >= 0,
                b >= 2,
        ;
    }
    if y < 0 {
        assert(a / (y as int) == -(a / b)) by (nonlinear_arith)
            requires
                a >= 0,
                y < 0,
                b == -y,
        ;
    }
}

/// The values of an element-wise operation `f` over the output shape
/// `shape`, in row-major order: each combines the `i64` elements of `a` and
/// `b` at the same output tuple.
pub open spec fn elementwise(a: Tensor, b: Tensor, shape: Seq<usize>, f: spec_fn(int, int) -> int) -> Seq<
    i64,
> {
    Seq::new(
        shape_product(shape),
        |j: int|
            f(a.i64_element(index_tuple(shape, j)) as int, b.i64_element(index_tuple(shape, j)) as int)
                as i64,
    )
}

/// Whether an element-wise operation over the output shape `shape` can read
/// the elements of `a` and `b` at every output tuple, and `ok` holds of each
/// pair it combines.
pub open spec fn elementwise_defined(
    a: Tensor,
    b: Tensor,
    shape: Seq<usize>,
    ok: spec_fn(int, int) -> bool,
) -> bool {
    forall|j: int|
        0 <= j < shape_product(shape) ==> {
            let t = #[trigger] index_tuple(shape, j);
            &&& a.readable(t)
            &&& b.readable(t)
            &&& ok(a.i64_element(t) as int, b.i64_element(t) as int)
        }
}

/// Whether an element-wise operation on `a` and `b` that `ok` allows stays
/// within its data: where both hold `i64` elements and their shapes
/// broadcast, the output fits in memory and every pair it combines is
/// there and allowed.
pub open spec fn elementwise_in_bounds(a: Tensor, b: Tensor, ok: spec_fn(int, int) -> bool) -> bool {
    b.tensor_type().elem_view() == ElementType::I64 ==> match multidirectional_shape(
        seq![a.tensor_type().shape_view(), b.tensor_type().shape_view()],
    ) {
        Ok(shape) => len_fits(ElementType::I64, shape) && elementwise_defined(a, b, shape, ok),
        Err(_) => true,
    }
}

/// What an element-wise operation `f` on `a` and `b` returns: an error where
/// the element types differ or the shapes do not broadcast, else the tensor
/// of the broadcast shape holding the values of `f`.
pub open spec fn elementwise_result(
    a: Tensor,
    b: Tensor,
    f: spec_fn(int, int) -> int,
    r: Result<Tensor, TensorError>,
) -> bool {
    if b.tensor_type().elem_view() != ElementType::I64 {
        r == Err::<Tensor, TensorError>(TensorError::ElementTypeMismatch)
    } else {
        match multidirectional_shape(
            seq![a.tensor_type().shape_view(), b.tensor_type().shape_view()],
        ) {
            Ok(shape) => r matches Ok(t) && t.tensor_type().elem_view() == ElementType::I64
                && t.tensor_type().shape_view() == shape && t.bytes() == i64s_le_bytes(
                elementwise(a, b, shape, f),
            ),
            Err(e) => r == Err::<Tensor, TensorError>(e),
        }
    }
}

/// An element-wise arithmetic operation on `i64` elements.
#[derive(Clone, Copy, Debug, PartialEq, Eq, Structural)]
pub enum ArithOp {
    Add,
    Div,
    Mul,
}

/// What an element-wise operation computes from two elements: the sum, the
/// quotient rounded toward zero, or the product.
pub open spec fn arith_fn(op: ArithOp) -> spec_fn(int, int) -> int {
    match op {
        ArithOp::Add => |x: int, y: int| x + y,
        ArithOp::Mul => |x: int, y: int| x * y,
        ArithOp::Div => |x: int, y: int| trunc_div(x, y),
    }
}

/// The pairs of `i64` elements on which an element-wise operation is
/// defined: those whose result fits an `i64`, and for the quotient a
/// divisor other than zero.
pub open spec fn arith_ok(op: ArithOp) -> spec_fn(int, int) -> bool {
    match op {
        ArithOp::Add => |x: int, y: int| i64::MIN <= x + y <= i64::MAX,
        ArithOp::Mul => |x: int, y: int| i64::MIN <= x * y <= i64::MAX,
        ArithOp::Div => |x: int, y: int| y != 0 && !(x == i64::MIN && y == -1),
    }
}

fn arith_apply(op: &ArithOp, x: i64, y: i64) -> (r: i64)
    requires
        (arith_ok(*op))(x as int, y as int),
    ensures
        r as int == (arith_fn(*op))(x as int, y as int),
{
    match op {
        ArithOp::Add => x + y,
        ArithOp::Mul => x * y,
        ArithOp::Div => {
            proof {
                lemma_trunc_div_fits(x, y);
            }
            x / y
        },
    }
}

/// A tensor: its type and its data, the elements in row-major order, each
/// stored little-endian.
#[derive(Debug, PartialEq)]
pub struct Tensor {
    ty: TensorType,
    data: Vec<u8>,
}

impl Clone for Tensor {
    fn clone(&self) -> (r: Self)
        ensures
            r.tensor_type().elem_view() == self.tensor_type().elem_view(),
            r.tensor_type().shape_view() == self.tensor_type().shape_view(),
            r.bytes() == self.bytes(),
    {
        proof {
            use_type_invariant(self);
        }
        let data = self.data.clone();
        assert(data@ =~= self.data@);
        Tensor { ty: self.ty.clone(), data }
    }
}

impl Tensor {
    /// The data holds exactly the elements of the type.
    #[verifier::type_invariant]
    closed spec fn data_fits(self) -> bool {
        self.data@.len() == self.ty.elem_view().byte_len() * shape_product(self.ty.shape_view())
    }

    /// The type of the tensor.
    pub closed spec fn tensor_type(self) -> TensorType {
        self.ty
    }

    /// The data of the tensor.
    pub closed spec fn bytes(self) -> Seq<u8> {
        self.data@
    }

    /// Whether the element at `indices` can be read.
    pub open spec fn readable(self, indices: Seq<usize>) -> bool {
        element_readable(
            self.tensor_type().elem_view(),
            self.tensor_type().shape_view(),
            self.bytes().len(),
            indices,
        )
    }

    /// The bytes of the element at `indices`.
    pub open spec fn element_bytes(self, indices: Seq<usize>) -> Seq<u8> {
        let elem = self.tensor_type().elem_view();
        let off = element_offset(elem, self.tensor_type().shape_view(), indices);
        self.bytes().subrange(off, off + elem.byte_len())
    }

    /// The `i64` element at `indices`.
    pub open spec fn i64_element(self, indices: Seq<usize>) -> i64 {
        i64_from_le(self.element_bytes(indices))
    }

    /// A tensor of type `ty` holding `data`, which must have the size of the
    /// type.
    pub fn new(ty: TensorType, data: Vec<u8>) -> (r: Result<Tensor, TensorError>)
        requires
            len_fits(ty.elem_view(), ty.shape_view()),
        ensures
            data@.len() == ty.elem_view().byte_len() * shape_product(ty.shape_view()) ==> (r matches Ok(
                t,
            ) && t.tensor_type() == ty && t.bytes() == data@),
            data@.len() != ty.elem_view().byte_len() * shape_product(ty.shape_view()) ==> r == Err::<
                Tensor,
                TensorError,
            >(TensorError::InvalidDataLength),
    {
        if data.len() != ty.len() {
            return Err(TensorError::InvalidDataLength);
        }
        Ok(Tensor { ty, data })
    }

    pub fn elem_ty(&self) -> (r: ElementType)
        ensures
            r == self.tensor_type().elem_view(),
    {
        self.ty.elem_ty()
    }

    /// The data: the elements in row-major order, each little-endian.
    pub fn as_bytes(&self) -> (r: &[u8])
        ensures
            r@ == self.bytes(),
            r@.len() == self.tensor_type().elem_view().byte_len() * shape_product(
                self.tensor_type().shape_view(),
            ),
    {
        proof {
            use_type_invariant(self);
        }
        self.data.as_slice()
    }

    pub fn shape(&self) -> (r: &[usize])
        ensures
            r@ == self.tensor_type().shape_view(),
    {
        self.ty.shape()
    }

    pub fn ty(&self) -> (r: &TensorType)
        ensures
            *r == self.tensor_type(),
    {
        &self.ty
    }

    pub fn rank(&self) -> (r: usize)
        ensures
            r == self.tensor_type().shape_view().len(),
    {
        self.shape().len()
    }

    pub fn dim(&self, axis: i64) -> (r: Option<usize>)
        ensures
            same_index(r, dim_at(self.tensor_type().shape_view(), axis as int)),
    {
        self.ty().dim(axis)
    }

    /// The bytes of the element at `indices`. Axes of dimension 1 take no
    /// index: any index along them reads the single element there.
    pub fn index_raw(&self, indices: &[usize]) -> (r: &[u8])
        requires
            self.readable(indices@),
        ensures
            r@ == self.element_bytes(indices@),
            r@.len() == self.tensor_type().elem_view().byte_len(),
    {
        let ghost shape = self.ty.shape_view();
        let ghost elem = self.ty.elem_view().byte_len();
        let rank = self.rank();
        let mut stride = self.elem_ty().len();
        let mut i: usize = 0;
        let mut axis = rank;
        while axis > 0
            invariant
                rank == shape.len(),
                shape == self.ty.shape_view(),
                elem == self.ty.elem_view().byte_len(),
                axis <= rank,
                indices@.len() <= rank,
                forall|k: int| 0 <= k < shape.len() && shape[k] != 1 ==> k < indices@.len(),
                raw_walk_fits(shape, indices@, elem, 0),
                (i as int, stride as int) == raw_walk(shape, indices@, elem, axis as nat),
            decreases axis,
        {
            axis = axis - 1;
            proof {
                lemma_raw_walk_fits_suffix(shape, indices@, elem, 0, axis as nat);
            }
            let dim = self.shape()[axis];
            if dim != 1 {
                i = i + indices[axis] * stride;
                stride = stride * dim;
            }
        }
        let n = self.elem_ty().len();
        let total = self.data.len();
        assert(i + n <= total);
        vstd::slice::slice_subrange(self.data.as_slice(), i, i + n)
    }

    /// The `i64` element at `indices`.
    pub fn index_i64(&self, indices: &[usize]) -> (r: i64)
        requires
            self.tensor_type().elem_view() == ElementType::I64,
            self.readable(indices@),
        ensures
            r == self.i64_element(indices@),
    {
        let bytes = self.index_raw(indices);
        i64_from_le_bytes(bytes)
    }

    /// A tensor of type `ty` holding `values`, which must fill the type.
    pub fn from_iter_i64(ty: TensorType, values: &[i64]) -> (r: Tensor)
        requires
            len_fits(ty.elem_view(), ty.shape_view()),
            values@.len() * 8 == ty.elem_view().byte_len() * shape_product(ty.shape_view()),
        ensures
            r.tensor_type() == ty,
            r.bytes() == i64s_le_bytes(values@),
    {
        let mut data: Vec<u8> = Vec::new();
        let mut k: usize = 0;
        while k < values.len()
            invariant
                k <= values@.len(),
                data@ == i64s_le_bytes(values@.take(k as int)),
                data@.len() == 8 * k,
            decreases values@.len() - k,
        {
            assert(values@.take(k + 1).drop_last() =~= values@.take(k as int));
            proof {
                lemma_le_bytes_len((values[k as int] as u64) as nat, 8);
            }
            push_i64_le(&mut data, values[k]);
            k = k + 1;
        }
        assert(values@.take(values@.len() as int) =~= values@);
        Tensor { ty, data }
    }

    /// Gathers the elements of `data` along `axis` that `indices` names: the
    /// axis of `data` gives way to all the axes of `indices`. The output
    /// places the indices from the axis that `axis` names in the output,
    /// which differs from the axis of `data` for a negative `axis` unless
    /// `indices` has rank 1.
    pub fn gather(data: &Tensor, indices: &Tensor, axis: i64) -> (r: Result<Tensor, TensorError>)
        requires
            data.tensor_type().shape_view().len() + indices.tensor_type().shape_view().len() <= i64::MAX
                + 1,
            gather_in_bounds(*data, *indices, axis as int),
        ensures
            ({
                let ds = data.tensor_type().shape_view();
                let is = indices.tensor_type().shape_view();
                match wrapped_index(axis as int, ds.len() as int) {
                    Some(ax) => {
                        let shape = gather_shape(ds, is, ax);
                        match wrapped_index(axis as int, shape.len() as int) {
                            Some(start) => r matches Ok(t) && t.tensor_type().elem_view()
                                == data.tensor_type().elem_view() && t.tensor_type().shape_view()
                                == shape && t.bytes() == gather_bytes(
                                *data,
                                *indices,
                                start,
                                shape,
                                shape_product(shape),
                            ),
                            None => r == Err::<Tensor, TensorError>(TensorError::InvalidAxis),
                        }
                    },
                    None => r == Err::<Tensor, TensorError>(TensorError::InvalidAxis),
                }
            }),
    {
        let ty = match TensorType::gather(data.ty(), indices.ty(), axis) {
            Ok(t) => t,
            Err(e) => {
                return Err(e);
            },
        };
        let ghost shape = ty.shape_view();
        let start = match wrap_index(axis, ty.rank()) {
            Some(s) => s,
            None => {
                return Err(TensorError::InvalidAxis);
            },
        };
        let ghost eb = data.tensor_type().elem_view().byte_len();
        let r = indices.rank();
        proof {
            assert(shape.take(shape.len() as int) =~= shape);
        }
        let all = ty.indices();
        let mut out: Vec<u8> = Vec::new();
        let mut j: usize = 0;
        while j < all.len()
            invariant
                j <= all@.len(),
                all@.len() == shape_product(shape),
                forall|i: int| 0 <= i < all@.len() ==> #[trigger] all@[i]@ == index_tuple(shape, i),
                shape == ty.shape_view(),
                r == indices.tensor_type().shape_view().len(),
                eb == data.tensor_type().elem_view().byte_len(),
                gather_readable(*data, *indices, start as int, shape),
                shape.len() + 1 == data.tensor_type().shape_view().len() + r,
                out@ == gather_bytes(*data, *indices, start as int, shape, j as nat),
                out@.len() == j * eb,
            decreases all@.len() - j,
        {
            let t = &all[j];
            assert(t@ == index_tuple(shape, j as int));
            let tl = t.len();
            let it = vstd::slice::slice_subrange(t.as_slice(), start, start + r);
            let v = indices.index_i64(it);
            let dim = data.shape()[start];
            let w = match wrap_index(v, dim) {
                Some(w) => w,
                None => {
                    return Err(TensorError::InvalidAxis);
                },
            };
            let src = splice_index(t.as_slice(), start, start + r, w);
            assert(gather_source(*data, *indices, start as int, t@) == Some(src@));
            let bytes = data.index_raw(src.as_slice());
            push_bytes(&mut out, bytes);
            proof {
                assert((j + 1) * eb == j * eb + eb) by (nonlinear_arith);
            }
            j = j + 1;
        }
        proof {
            assert(out@.len() == eb * shape_product(shape)) by (nonlinear_arith)
                requires
                    out@.len() == j * eb,
                    j == shape_product(shape),
            ;
        }
        Ok(Tensor { ty, data: out })
    }

    /// Combines the `i64` elements of `a` and `b` by `op` over their
    /// broadcast shape: an error where `b` holds other elements or the
    /// shapes do not broadcast.
    pub fn elementwise_i64(a: &Tensor, b: &Tensor, op: ArithOp) -> (r: Result<Tensor, TensorError>)
        requires
            a.tensor_type().elem_view() == ElementType::I64,
            elementwise_in_bounds(*a, *b, arith_ok(op)),
        ensures
            elementwise_result(*a, *b, arith_fn(op), r),
    {
        if b.elem_ty() != ElementType::I64 {
            return Err(TensorError::ElementTypeMismatch);
        }
        let tys = [a.ty(), b.ty()];
        assert(tys@.map_values(|t: &TensorType| t.shape_view()) =~= seq![
            a.tensor_type().shape_view(),
            b.tensor_type().shape_view(),
        ]);
        let ty = match TensorType::multidirectional_broadcast(ElementType::I64, &tys) {
            Ok(t) => t,
            Err(e) => {
                return Err(e);
            },
        };
        let ghost shape = ty.shape_view();
        let ghost f = arith_fn(op);
        proof {
            assert(shape.take(shape.len() as int) =~= shape);
        }
        let all = ty.indices();
        let mut values: Vec<i64> = Vec::new();
        let mut j: usize = 0;
        while j < all.len()
            invariant
                j <= all@.len(),
                all@.len() == shape_product(shape),
                forall|i: int| 0 <= i < all@.len() ==> #[trigger] all@[i]@ == index_tuple(shape, i),
                a.tensor_type().elem_view() == ElementType::I64,
                b.tensor_type().elem_view() == ElementType::I64,
                elementwise_defined(*a, *b, shape, arith_ok(op)),
                f == arith_fn(op),
                values@ == elementwise(*a, *b, shape, f).take(j as int),
            decreases all@.len() - j,
        {
            let t = &all[j];
            assert(t@ == index_tuple(shape, j as int));
            let x = a.index_i64(t.as_slice());
            let y = b.index_i64(t.as_slice());
            let v = arith_apply(&op, x, y);
            values.push(v);
            assert(values@ =~= elementwise(*a, *b, shape, f).take(j + 1));
            j = j + 1;
        }
        assert(values@ =~= elementwise(*a, *b, shape, f));
        Ok(Tensor::from_iter_i64(ty, values.as_slice()))
    }

    /// The `i64` elements of the tensor, in order.
    pub fn iter_i64(&self) -> (r: Vec<i64>)
        requires
            self.tensor_type().elem_view() == ElementType::I64,
        ensures
            r@.len() * 8 == self.bytes().len(),
            forall|k: int|
                0 <= k < r@.len() ==> #[trigger] r@[k] == i64_from_le(
                    self.bytes().subrange(8 * k, 8 * k + 8),
                ),
    {
        proof {
            use_type_invariant(self);
        }
        let total = self.data.len();
        let n = total / 8;
        assert(total == 8 * shape_product(self.ty.shape_view()));
        let mut r: Vec<i64> = Vec::new();
        let mut k: usize = 0;
        while k < n
            invariant
                n * 8 == self.data@.len(),
                self.data@.len() <= usize::MAX,
                k <= n,
                r@.len() == k,
                forall|j: int|
                    0 <= j < k ==> #[trigger] r@[j] == i64_from_le(
                        self.data@.subrange(8 * j, 8 * j + 8),
                    ),
            decreases n - k,
        {
            let chunk = vstd::slice::slice_subrange(self.data.as_slice(), 8 * k, 8 * k + 8);
            r.push(i64_from_le_bytes(chunk));
            k = k + 1;
        }
        r
    }
}

/// The fitting of a walk from axis `k` carries over to every later axis.
proof fn lemma_raw_walk_fits_suffix(shape: Seq<usize>, indices: Seq<usize>, elem: nat, k: nat, m: nat)
    requires
        k <= m,
        raw_walk_fits(shape, indices, elem, k),
    ensures
        raw_walk_fits(shape, indices, elem, m),
    decreases m - k,
{
    if k < m && k < shape.len() {
        lemma_raw_walk_fits_suffix(shape, indices, elem, k + 1, m);
    }
}

} // verus!
