//! The operations of a policy network's graph: what each asks of its
//! inputs, the types of the outputs it gives, and the constants it folds.
use crate::tensor::{
    arith_fn, arith_ok, dim_at, elementwise, elementwise_in_bounds, gather_bytes, gather_in_bounds,
    gather_shape, i64s_le_bytes, lemma_shape_product_single, lemma_vector_readable, len_fits, multidirectional_shape, shape_product,
    unidirectional_shape, wrap_index, wrap_range, wrapped_index, wrapped_range, ArithOp,
    ElementType, Tensor, TensorError, TensorType,
};
use vstd::prelude::*;

verus! {

/// A value of the graph: an input, of which only the type is known, or a
/// constant.
#[derive(Debug)]
pub enum Var {
    Input(TensorType),
    Const(Tensor),
}

/// Whether two tensor types agree.
pub open spec fn same_type(a: TensorType, b: TensorType) -> bool {
    a.elem_view() == b.elem_view() && a.shape_view() == b.shape_view()
}

/// Whether two tensors agree in type and data.
pub open spec fn same_tensor(a: Tensor, b: Tensor) -> bool {
    same_type(a.tensor_type(), b.tensor_type()) && a.bytes() == b.bytes()
}

/// Whether two values agree.
pub open spec fn same_var(a: Var, b: Var) -> bool {
    match (a, b) {
        (Var::Input(x), Var::Input(y)) => same_type(x, y),
        (Var::Const(x), Var::Const(y)) => same_tensor(x, y),
        _ => false,
    }
}

impl Clone for Var {
    fn clone(&self) -> (r: Self)
        ensures
            same_var(r, *self),
    {
        match self {
            Var::Input(t) => Var::Input(t.clone()),
            Var::Const(t) => Var::Const(t.clone()),
        }
    }
}

impl Var {
    /// The type of the value.
    pub open spec fn type_view(self) -> TensorType {
        match self {
            Var::Input(t) => t,
            Var::Const(c) => c.tensor_type(),
        }
    }

    pub open spec fn elem_view(self) -> ElementType {
        self.type_view().elem_view()
    }

    pub open spec fn shape_view(self) -> Seq<usize> {
        self.type_view().shape_view()
    }

    pub fn ty(&self) -> (r: &TensorType)
        ensures
            *r == self.type_view(),
    {
        match self {
            Var::Input(t) => t,
            Var::Const(c) => c.ty(),
        }
    }

    pub fn elem_ty(&self) -> (r: ElementType)
        ensures
            r == self.elem_view(),
    {
        self.ty().elem_ty()
    }

    pub fn shape(&self) -> (r: &[usize])
        ensures
            r@ == self.shape_view(),
    {
        self.ty().shape()
    }

    pub fn rank(&self) -> (r: usize)
        ensures
            r == self.shape_view().len(),
            r <= i64::MAX,
    {
        self.ty().rank()
    }

    /// The tensor of a constant.
    pub fn unwrap_const(&self) -> (r: &Tensor)
        requires
            self is Const,
        ensures
            *self == Var::Const(*r),
    {
        match self {
            Var::Const(t) => t,
            Var::Input(_) => vstd::pervasive::unreached(),
        }
    }
}

/// An operation of the graph.
#[derive(Debug)]
pub enum Operation {
    /// The matrix product `alpha * A * B + beta * C` of `A` and `B`, each
    /// transposed where asked, and the bias `C`; `alpha` and `beta` are the
    /// bits of their `f32` values.
    Gemm { alpha: u32, beta: u32, trans_a: bool, trans_b: bool },
    Tanh,
    /// The dimensions of the input from axis `start` to `end`, by default
    /// the rank.
    Shape { start: i64, end: Option<i64> },
    Constant { value: Tensor },
    Gather { axis: i64 },
    Add,
    Div,
    Mul,
    Slice,
    Max,
    Min,
    Relu,
    Concat { axis: i64 },
}

/// Why an operation or a node of the graph is refused.
#[derive(Debug, PartialEq, Eq, Structural)]
pub enum OpError {
    /// The operation has a number of inputs it does not take.
    InvalidInputCount,
    /// The operation takes that number of inputs in general, but not here.
    UnsupportedInputCount,
    /// The inputs differ in element type.
    ElementTypeMismatch,
    /// The inputs differ in rank.
    RankMismatch,
    /// An input has a rank the operation does not take.
    InvalidRank,
    /// The dimensions of the inputs do not agree.
    DimensionMismatch,
    /// Inputs that must have the same shape do not.
    ShapeMismatch,
    /// An axis lies outside the rank.
    InvalidAxis,
    /// A range of axes or of indices is empty or lies outside its bounds.
    InvalidRange,
    /// The bias of a matrix product does not broadcast onto its output.
    InvalidBias,
    /// An input that must be a constant is not.
    NotConst,
    /// The node names an operation that is not supported.
    UnsupportedOperation,
    /// The constant of the node is not a tensor.
    UnsupportedConstant,
    /// The node lacks an attribute it needs.
    MissingAttribute,
    /// A tensor or value has an element type that is not supported.
    UnsupportedElementType,
    /// A dimension is negative, too large, or not a value.
    InvalidDimension,
    /// A tensor holds no raw data.
    MissingRawData,
    /// A tensor is one segment of a larger one.
    SegmentedData,
    /// The data of a tensor is stored outside the model.
    ExternalData,
    /// A value has no type.
    MissingType,
    /// A value has a type other than a tensor.
    UnsupportedType,
    /// The type of a value has no shape.
    MissingShape,
    /// A tensor operation failed.
    Tensor(TensorError),
}

/// What an operation gives.
#[derive(Debug)]
pub enum Applied {
    /// The outputs.
    Outputs(Vec<Var>),
    /// A single constant output: `op` on the `f32` elements of the constants
    /// `a` and `b`, element by element over their broadcast shape.
    FoldF32 { op: ArithOp, a: Tensor, b: Tensor },
}

/// Whether `r` is a single input output of the given type.
pub open spec fn single_input(r: Result<Applied, OpError>, elem: ElementType, shape: Seq<usize>) -> bool {
    &&& r matches Ok(Applied::Outputs(v))
    &&& v@.len() == 1
    &&& v@[0] matches Var::Input(t)
    &&& t.elem_view() == elem
    &&& t.shape_view() == shape
}

/// Whether `r` is a single constant output satisfying `p`.
pub open spec fn single_const(r: Result<Applied, OpError>, p: spec_fn(Tensor) -> bool) -> bool {
    &&& r matches Ok(Applied::Outputs(v))
    &&& v@.len() == 1
    &&& v@[0] matches Var::Const(t)
    &&& p(t)
}

/// A single input output of the given type.
fn input_output(elem: ElementType, shape: Vec<usize>) -> (r: Result<Applied, OpError>)
    requires
        shape@.len() <= i64::MAX,
    ensures
        single_input(r, elem, shape@),
{
    let mut v: Vec<Var> = Vec::new();
    v.push(Var::Input(TensorType::new(elem, shape)));
    Ok(Applied::Outputs(v))
}

/// A single constant output.
fn const_output(t: Tensor) -> (r: Result<Applied, OpError>)
    ensures
        r matches Ok(Applied::Outputs(v)) && v@.len() == 1 && v@[0] == Var::Const(t),
{
    let mut v: Vec<Var> = Vec::new();
    v.push(Var::Const(t));
    Ok(Applied::Outputs(v))
}

// ---------------------------------------------------------------------------
// Tanh, Relu
// ---------------------------------------------------------------------------

/// What an operation on one input of the same type as its output gives.
pub open spec fn unary_applied(inputs: Seq<Var>, r: Result<Applied, OpError>) -> bool {
    if inputs.len() != 1 {
        r == Err::<Applied, OpError>(OpError::InvalidInputCount)
    } else {
        single_input(r, inputs[0].elem_view(), inputs[0].shape_view())
    }
}

fn apply_unary(inputs: &[Var]) -> (r: Result<Applied, OpError>)
    ensures
        unary_applied(inputs@, r),
{
    if inputs.len() != 1 {
        return Err(OpError::InvalidInputCount);
    }
    let mut v: Vec<Var> = Vec::new();
    v.push(Var::Input(inputs[0].ty().clone()));
    Ok(Applied::Outputs(v))
}

// ---------------------------------------------------------------------------
// Constant
// ---------------------------------------------------------------------------

/// What a constant gives: its value, taking no input.
pub open spec fn constant_applied(value: Tensor, inputs: Seq<Var>, r: Result<Applied, OpError>) -> bool {
    if inputs.len() != 0 {
        r == Err::<Applied, OpError>(OpError::InvalidInputCount)
    } else {
        single_const(r, |t: Tensor| same_tensor(t, value))
    }
}

fn apply_constant(value: &Tensor, inputs: &[Var]) -> (r: Result<Applied, OpError>)
    ensures
        constant_applied(*value, inputs@, r),
{
    if inputs.len() != 0 {
        return Err(OpError::InvalidInputCount);
    }
    const_output(value.clone())
}

// ---------------------------------------------------------------------------
// Max, Min
// ---------------------------------------------------------------------------

/// Whether all `inputs` have the element type of the first.
pub open spec fn same_elements(inputs: Seq<Var>) -> bool {
    forall|i: int| 0 <= i < inputs.len() ==> #[trigger] inputs[i].elem_view() == inputs[0].elem_view()
}

/// The shapes of `inputs`.
pub open spec fn shapes_of(inputs: Seq<Var>) -> Seq<Seq<usize>> {
    inputs.map_values(|v: Var| v.shape_view())
}

/// What an element-wise maximum or minimum of any number of inputs gives:
/// an input of their broadcast shape.
pub open spec fn extremum_applied(inputs: Seq<Var>, r: Result<Applied, OpError>) -> bool {
    if inputs.len() == 0 {
        r == Err::<Applied, OpError>(OpError::InvalidInputCount)
    } else if !same_elements(inputs) {
        r == Err::<Applied, OpError>(OpError::ElementTypeMismatch)
    } else {
        match multidirectional_shape(shapes_of(inputs)) {
            Ok(shape) => single_input(r, inputs[0].elem_view(), shape),
            Err(e) => r == Err::<Applied, OpError>(OpError::Tensor(e)),
        }
    }
}

/// Whether all `inputs` have the element type `elem`.
fn all_elements(inputs: &[Var], elem: ElementType) -> (r: bool)
    ensures
        r == forall|i: int| 0 <= i < inputs@.len() ==> #[trigger] inputs@[i].elem_view() == elem,
{
    let mut i: usize = 0;
    while i < inputs.len()
        invariant
            i <= inputs@.len(),
            forall|j: int| 0 <= j < i ==> #[trigger] inputs@[j].elem_view() == elem,
        decreases inputs@.len() - i,
    {
        if inputs[i].elem_ty() != elem {
            return false;
        }
        i = i + 1;
    }
    true
}

fn apply_extremum(inputs: &[Var]) -> (r: Result<Applied, OpError>)
    ensures
        extremum_applied(inputs@, r),
{
    if inputs.len() == 0 {
        return Err(OpError::InvalidInputCount);
    }
    let elem = inputs[0].elem_ty();
    if !all_elements(inputs, elem) {
        return Err(OpError::ElementTypeMismatch);
    }
    let mut tys: Vec<&TensorType> = Vec::new();
    let mut i: usize = 0;
    while i < inputs.len()
        invariant
            i <= inputs@.len(),
            tys@.len() == i,
            forall|j: int| 0 <= j < i ==> *#[trigger] tys@[j] == inputs@[j].type_view(),
        decreases inputs@.len() - i,
    {
        tys.push(inputs[i].ty());
        i = i + 1;
    }
    assert(tys@.map_values(|t: &TensorType| t.shape_view()) =~= shapes_of(inputs@));
    match TensorType::multidirectional_broadcast(elem, tys.as_slice()) {
        Ok(ty) => {
            let mut v: Vec<Var> = Vec::new();
            v.push(Var::Input(ty));
            Ok(Applied::Outputs(v))
        },
        Err(e) => Err(OpError::Tensor(e)),
    }
}

// ---------------------------------------------------------------------------
// Add, Div, Mul
// ---------------------------------------------------------------------------

/// What an element-wise operation of two inputs gives: for two constants of
/// `i64` elements, the constant of the results; for two constants of `f32`
/// elements, the fold to be done on them; else an input of the broadcast
/// shape. More than two inputs are refused.
pub open spec fn arith_applied(op: ArithOp, inputs: Seq<Var>, r: Result<Applied, OpError>) -> bool {
    if inputs.len() > 2 {
        r == Err::<Applied, OpError>(OpError::InvalidInputCount)
    } else if inputs[0].elem_view() != inputs[1].elem_view() {
        r == Err::<Applied, OpError>(OpError::ElementTypeMismatch)
    } else {
        match (inputs[0], inputs[1]) {
            (Var::Const(a), Var::Const(b)) => if a.tensor_type().elem_view() == ElementType::I64 {
                match multidirectional_shape(
                    seq![a.tensor_type().shape_view(), b.tensor_type().shape_view()],
                ) {
                    Ok(shape) => single_const(
                        r,
                        |t: Tensor|
                            t.tensor_type().elem_view() == ElementType::I64
                                && t.tensor_type().shape_view() == shape && t.bytes()
                                == i64s_le_bytes(elementwise(a, b, shape, arith_fn(op))),
                    ),
                    Err(e) => r == Err::<Applied, OpError>(OpError::Tensor(e)),
                }
            } else {
                &&& r matches Ok(Applied::FoldF32 { op: o, a: x, b: y })
                &&& o == op
                &&& same_tensor(x, a)
                &&& same_tensor(y, b)
            },
            _ => match multidirectional_shape(
                seq![inputs[0].shape_view(), inputs[1].shape_view()],
            ) {
                Ok(shape) => single_input(r, inputs[0].elem_view(), shape),
                Err(e) => r == Err::<Applied, OpError>(OpError::Tensor(e)),
            },
        }
    }
}

/// Whether an element-wise operation of two inputs reads only what is there
/// and folds only what fits.
pub open spec fn arith_in_bounds(op: ArithOp, inputs: Seq<Var>) -> bool {
    &&& inputs.len() >= 2
    &&& inputs.len() == 2 && inputs[0].elem_view() == inputs[1].elem_view() ==> match (
        inputs[0],
        inputs[1],
    ) {
        (Var::Const(a), Var::Const(b)) => a.tensor_type().elem_view() == ElementType::I64
            ==> elementwise_in_bounds(a, b, arith_ok(op)),
        _ => true,
    }
}

fn apply_arith(op: ArithOp, inputs: &[Var]) -> (r: Result<Applied, OpError>)
    requires
        arith_in_bounds(op, inputs@),
    ensures
        arith_applied(op, inputs@, r),
{
    if inputs.len() > 2 {
        return Err(OpError::InvalidInputCount);
    }
    if inputs[0].elem_ty() != inputs[1].elem_ty() {
        return Err(OpError::ElementTypeMismatch);
    }
    match (&inputs[0], &inputs[1]) {
        (Var::Const(a), Var::Const(b)) => {
            if a.elem_ty() == ElementType::I64 {
                match Tensor::elementwise_i64(a, b, op) {
                    Ok(t) => const_output(t),
                    Err(e) => Err(OpError::Tensor(e)),
                }
            } else {
                Ok(Applied::FoldF32 { op, a: a.clone(), b: b.clone() })
            }
        },
        (x, y) => {
            let tys = [x.ty(), y.ty()];
            assert(tys@.map_values(|t: &TensorType| t.shape_view()) =~= seq![
                x.shape_view(),
                y.shape_view(),
            ]);
            match TensorType::multidirectional_broadcast(x.elem_ty(), &tys) {
                Ok(ty) => {
                    let mut v: Vec<Var> = Vec::new();
                    v.push(Var::Input(ty));
                    Ok(Applied::Outputs(v))
                },
                Err(e) => Err(OpError::Tensor(e)),
            }
        },
    }
}

// ---------------------------------------------------------------------------
// Gemm
// ---------------------------------------------------------------------------

/// The rows and columns of a matrix of the given shape, transposed where
/// asked.
pub open spec fn matrix_dims(shape: Seq<usize>, trans: bool) -> (usize, usize) {
    if trans {
        (shape[1], shape[0])
    } else {
        (shape[0], shape[1])
    }
}

/// What a matrix product gives: an input of `m` rows and `n` columns for
/// matrices `A` of `m` rows and `k` columns and `B` of `k` rows and `n`
/// columns, as transposed, whose optional bias has their element type and
/// broadcasts onto the output.
pub open spec fn gemm_applied(trans_a: bool, trans_b: bool, inputs: Seq<Var>, r: Result<Applied, OpError>) -> bool {
    if !(2 <= inputs.len() <= 3) {
        r == Err::<Applied, OpError>(OpError::InvalidInputCount)
    } else if inputs[0].shape_view().len() != 2 || inputs[1].shape_view().len() != 2 {
        r == Err::<Applied, OpError>(OpError::InvalidRank)
    } else if inputs[0].elem_view() != inputs[1].elem_view() {
        r == Err::<Applied, OpError>(OpError::ElementTypeMismatch)
    } else {
        let (m, k) = matrix_dims(inputs[0].shape_view(), trans_a);
        let (k2, n) = matrix_dims(inputs[1].shape_view(), trans_b);
        if k != k2 {
            r == Err::<Applied, OpError>(OpError::DimensionMismatch)
        } else if inputs.len() == 3 && inputs[2].elem_view() != inputs[0].elem_view() {
            r == Err::<Applied, OpError>(OpError::ElementTypeMismatch)
        } else if inputs.len() == 3 && unidirectional_shape(inputs[2].shape_view(), seq![m, n]) is None {
            r == Err::<Applied, OpError>(OpError::InvalidBias)
        } else {
            single_input(r, inputs[0].elem_view(), seq![m, n])
        }
    }
}

fn apply_gemm(trans_a: bool, trans_b: bool, inputs: &[Var]) -> (r: Result<Applied, OpError>)
    ensures
        gemm_applied(trans_a, trans_b, inputs@, r),
{
    if !(2 <= inputs.len() && inputs.len() <= 3) {
        return Err(OpError::InvalidInputCount);
    }
    if inputs[0].rank() != 2 {
        return Err(OpError::InvalidRank);
    }
    if inputs[1].rank() != 2 {
        return Err(OpError::InvalidRank);
    }
    if inputs[0].elem_ty() != inputs[1].elem_ty() {
        return Err(OpError::ElementTypeMismatch);
    }
    let elem = inputs[0].elem_ty();
    let a = inputs[0].shape();
    let b = inputs[1].shape();
    let (m, k) = if trans_a {
        (a[1], a[0])
    } else {
        (a[0], a[1])
    };
    let (k2, n) = if trans_b {
        (b[1], b[0])
    } else {
        (b[0], b[1])
    };
    if k != k2 {
        return Err(OpError::DimensionMismatch);
    }
    let output_ty = TensorType::new(elem, vec![m, n]);
    if inputs.len() == 3 {
        if inputs[2].elem_ty() != elem {
            return Err(OpError::ElementTypeMismatch);
        }
        if TensorType::unidirectional_broadcast(elem, inputs[2].ty(), &output_ty).is_err() {
            return Err(OpError::InvalidBias);
        }
    }
    let mut v: Vec<Var> = Vec::new();
    v.push(Var::Input(output_ty));
    Ok(Applied::Outputs(v))
}

// ---------------------------------------------------------------------------
// Concat
// ---------------------------------------------------------------------------

/// Whether all `inputs` have the rank of the first.
pub open spec fn same_ranks(inputs: Seq<Var>) -> bool {
    forall|i: int|
        0 <= i < inputs.len() ==> #[trigger] inputs[i].shape_view().len() == inputs[0].shape_view().len()
}

/// Whether all `inputs` agree with the first along every axis but `axis`.
pub open spec fn dims_agree(inputs: Seq<Var>, axis: int) -> bool {
    forall|i: int, j: int|
        0 <= i < inputs[0].shape_view().len() && i != axis && 0 <= j < inputs.len()
            ==> #[trigger] inputs[j].shape_view()[i] == inputs[0].shape_view()[i]
}

/// The sum of the dimensions along `axis` of the first `n` inputs.
pub open spec fn concat_dim(inputs: Seq<Var>, axis: int, n: nat) -> int
    decreases n,
{
    if n == 0 {
        0
    } else {
        concat_dim(inputs, axis, (n - 1) as nat) + inputs[n - 1].shape_view()[axis]
    }
}

/// What a concatenation along `axis` gives: an input of the shape of the
/// first, whose dimension along the axis is the sum of theirs; the inputs
/// must agree in element type, rank, and every other dimension.
pub open spec fn concat_applied(axis: i64, inputs: Seq<Var>, r: Result<Applied, OpError>) -> bool {
    if inputs.len() == 0 {
        r == Err::<Applied, OpError>(OpError::InvalidInputCount)
    } else if !same_elements(inputs) {
        r == Err::<Applied, OpError>(OpError::ElementTypeMismatch)
    } else if !same_ranks(inputs) {
        r == Err::<Applied, OpError>(OpError::RankMismatch)
    } else {
        let first = inputs[0].shape_view();
        match wrapped_index(axis as int, first.len() as int) {
            None => r == Err::<Applied, OpError>(OpError::InvalidAxis),
            Some(ax) => if !dims_agree(inputs, ax) {
                r == Err::<Applied, OpError>(OpError::DimensionMismatch)
            } else {
                single_input(
                    r,
                    inputs[0].elem_view(),
                    first.update(ax, concat_dim(inputs, ax, inputs.len()) as usize),
                )
            },
        }
    }
}

/// Whether the dimension of a valid concatenation fits a `usize`.
pub open spec fn concat_in_bounds(axis: i64, inputs: Seq<Var>) -> bool {
    inputs.len() > 0 && same_elements(inputs) && same_ranks(inputs) ==> match wrapped_index(
        axis as int,
        inputs[0].shape_view().len() as int,
    ) {
        Some(ax) => dims_agree(inputs, ax) ==> concat_dim(inputs, ax, inputs.len()) <= usize::MAX,
        None => true,
    }
}

proof fn lemma_concat_dim_monotonic(inputs: Seq<Var>, axis: int, i: nat, n: nat)
    requires
        i <= n,
    ensures
        0 <= concat_dim(inputs, axis, i) <= concat_dim(inputs, axis, n),
    decreases n,
{
    if i < n {
        lemma_concat_dim_monotonic(inputs, axis, i, (n - 1) as nat);
    } else if n > 0 {
        lemma_concat_dim_monotonic(inputs, axis, (n - 1) as nat, (n - 1) as nat);
    }
}

/// Whether all `inputs` have the rank `rank`.
fn all_ranks(inputs: &[Var], rank: usize) -> (r: bool)
    ensures
        r == forall|i: int| 0 <= i < inputs@.len() ==> #[trigger] inputs@[i].shape_view().len() == rank,
{
    let mut i: usize = 0;
    while i < inputs.len()
        invariant
            i <= inputs@.len(),
            forall|j: int| 0 <= j < i ==> #[trigger] inputs@[j].shape_view().len() == rank,
        decreases inputs@.len() - i,
    {
        if inputs[i].rank() != rank {
            return false;
        }
        i = i + 1;
    }
    true
}

/// Whether all `inputs`, of rank at least `i + 1`, have the dimension `dim`
/// along `i`.
fn all_dims(inputs: &[Var], i: usize, dim: usize) -> (r: bool)
    requires
        forall|j: int| 0 <= j < inputs@.len() ==> i < #[trigger] inputs@[j].shape_view().len(),
    ensures
        r == forall|j: int| 0 <= j < inputs@.len() ==> #[trigger] inputs@[j].shape_view()[i as int] == dim,
{
    let mut j: usize = 0;
    while j < inputs.len()
        invariant
            j <= inputs@.len(),
            forall|k: int| 0 <= k < inputs@.len() ==> i < #[trigger] inputs@[k].shape_view().len(),
            forall|k: int| 0 <= k < j ==> #[trigger] inputs@[k].shape_view()[i as int] == dim,
        decreases inputs@.len() - j,
    {
        if inputs[j].shape()[i] != dim {
            return false;
        }
        j = j + 1;
    }
    true
}

fn apply_concat(axis: i64, inputs: &[Var]) -> (r: Result<Applied, OpError>)
    requires
        concat_in_bounds(axis, inputs@),
    ensures
        concat_applied(axis, inputs@, r),
{
    if inputs.len() == 0 {
        return Err(OpError::InvalidInputCount);
    }
    let elem = inputs[0].elem_ty();
    let rank = inputs[0].rank();
    if !all_elements(inputs, elem) {
        return Err(OpError::ElementTypeMismatch);
    }
    if !all_ranks(inputs, rank) {
        return Err(OpError::RankMismatch);
    }
    let ax = match wrap_index(axis, rank) {
        Some(a) => a,
        None => {
            return Err(OpError::InvalidAxis);
        },
    };
    let first = inputs[0].shape();
    let mut i: usize = 0;
    while i < rank
        invariant
            i <= rank,
            inputs@.len() > 0,
            same_elements(inputs@),
            same_ranks(inputs@),
            elem == inputs@[0].elem_view(),
            wrapped_index(axis as int, rank as int) == Some(ax as int),
            rank == inputs@[0].shape_view().len(),
            first@ == inputs@[0].shape_view(),
            ax < rank,
            forall|j: int| 0 <= j < inputs@.len() ==> #[trigger] inputs@[j].shape_view().len() == rank,
            forall|k: int, j: int|
                0 <= k < i && k != ax && 0 <= j < inputs@.len() ==> #[trigger] inputs@[j].shape_view()[k]
                    == inputs@[0].shape_view()[k],
        decreases rank - i,
    {
        if i != ax {
            if !all_dims(inputs, i, first[i]) {
                assert(!dims_agree(inputs@, ax as int)) by {
                    let j = choose|j: int|
                        0 <= j < inputs@.len() && #[trigger] inputs@[j].shape_view()[i as int]
                            != first@[i as int];
                    assert(inputs@[j].shape_view()[i as int] != inputs@[0].shape_view()[i as int]);
                }
                return Err(OpError::DimensionMismatch);
            }
        }
        i = i + 1;
    }
    let mut sum: usize = 0;
    let mut j: usize = 0;
    while j < inputs.len()
        invariant
            j <= inputs@.len(),
            ax < rank,
            forall|k: int| 0 <= k < inputs@.len() ==> #[trigger] inputs@[k].shape_view().len() == rank,
            concat_dim(inputs@, ax as int, inputs@.len()) <= usize::MAX,
            sum == concat_dim(inputs@, ax as int, j as nat),
        decreases inputs@.len() - j,
    {
        proof {
            lemma_concat_dim_monotonic(inputs@, ax as int, (j + 1) as nat, inputs@.len());
        }
        sum = sum + inputs[j].shape()[ax];
        j = j + 1;
    }
    let mut shape: Vec<usize> = Vec::new();
    let mut k: usize = 0;
    while k < rank
        invariant
            k <= rank,
            first@.len() == rank,
            ax < rank,
            shape@ == first@.update(ax as int, sum).take(k as int),
        decreases rank - k,
    {
        if k == ax {
            shape.push(sum);
        } else {
            shape.push(first[k]);
        }
        assert(shape@ =~= first@.update(ax as int, sum).take(k + 1));
        k = k + 1;
    }
    assert(shape@ =~= first@.update(ax as int, sum));
    input_output(elem, shape)
}

// ---------------------------------------------------------------------------
// Shape
// ---------------------------------------------------------------------------

/// The end of the axes of a `Shape` operation on a tensor of rank `rank`.
pub open spec fn shape_end(end: Option<i64>, rank: int) -> int {
    match end {
        Some(e) => e as int,
        None => rank,
    }
}

/// What a `Shape` operation gives: the constant of the input's dimensions
/// over the axes from `start` to its end, as `i64` values.
pub open spec fn shape_applied(start: i64, end: Option<i64>, inputs: Seq<Var>, r: Result<Applied, OpError>) -> bool {
    if inputs.len() != 1 {
        r == Err::<Applied, OpError>(OpError::InvalidInputCount)
    } else {
        let s = inputs[0].shape_view();
        match wrapped_range(start as int, shape_end(end, s.len() as int), s.len() as int) {
            None => r == Err::<Applied, OpError>(OpError::InvalidRange),
            Some((a, b)) => single_const(
                r,
                |t: Tensor|
                    t.tensor_type().elem_view() == ElementType::I64 && t.tensor_type().shape_view()
                        == seq![(b - a) as usize] && t.bytes() == i64s_le_bytes(
                        s.subrange(a, b).map_values(|d: usize| d as i64),
                    ),
            ),
        }
    }
}

/// Whether the axes of a `Shape` operation run forward and their number
/// fits the size of a tensor.
pub open spec fn shape_in_bounds(start: i64, end: Option<i64>, inputs: Seq<Var>) -> bool {
    inputs.len() == 1 ==> match wrapped_range(
        start as int,
        shape_end(end, inputs[0].shape_view().len() as int),
        inputs[0].shape_view().len() as int,
    ) {
        Some((a, b)) => a <= b && 8 * (b - a) <= usize::MAX,
        None => true,
    }
}

fn apply_shape(start: i64, end: Option<i64>, inputs: &[Var]) -> (r: Result<Applied, OpError>)
    requires
        shape_in_bounds(start, end, inputs@),
    ensures
        shape_applied(start, end, inputs@, r),
{
    if inputs.len() != 1 {
        return Err(OpError::InvalidInputCount);
    }
    let rank = inputs[0].rank();
    let ghost old_end = end;
    let end = match end {
        Some(e) => e,
        None => rank as i64,
    };
    let dims = match inputs[0].ty().dims(start..end) {
        Some(d) => d,
        None => {
            return Err(OpError::InvalidRange);
        },
    };
    let mut values: Vec<i64> = Vec::new();
    let mut k: usize = 0;
    while k < dims.len()
        invariant
            k <= dims@.len(),
            values@ == dims@.take(k as int).map_values(|d: usize| d as i64),
        decreases dims@.len() - k,
    {
        values.push(#[verifier::truncate] (dims[k] as i64));
        assert(values@ =~= dims@.take(k + 1).map_values(|d: usize| d as i64));
        k = k + 1;
    }
    assert(dims@.take(dims@.len() as int) =~= dims@);
    let n = values.len();
    let ghost s = inputs@[0].shape_view();
    assert(end as int == shape_end(old_end, s.len() as int));
    assert(wrapped_range(start as int, end as int, s.len() as int) matches Some((a, b)) && dims@
        == s.subrange(a, b) && n == b - a);
    let mut dim: Vec<usize> = Vec::new();
    dim.push(n);
    assert(dim@ =~= seq![n]);
    let ty = TensorType::new(ElementType::I64, dim);
    proof {
        lemma_shape_product_single(n);
    }
    const_output(Tensor::from_iter_i64(ty, values.as_slice()))
}

// ---------------------------------------------------------------------------
// Slice
// ---------------------------------------------------------------------------

/// The shape of a slice of data of shape `data` after the first `n` of the
/// ranges that `starts`, `ends` and `axes` hold: each replaces the
/// dimension of its axis by its length; an axis outside the rank, or a range
/// that is empty or outside the dimension, is refused.
pub open spec fn slice_shape(data: Seq<usize>, starts: Tensor, ends: Tensor, axes: Tensor, n: nat) -> Result<
    Seq<usize>,
    OpError,
>
    decreases n,
{
    if n == 0 {
        Ok(data)
    } else {
        match slice_shape(data, starts, ends, axes, (n - 1) as nat) {
            Err(e) => Err(e),
            Ok(shape) => {
                let i = seq![(n - 1) as usize];
                match wrapped_index(axes.i64_element(i) as int, data.len() as int) {
                    None => Err(OpError::InvalidAxis),
                    Some(a) => match wrapped_range(
                        starts.i64_element(i) as int,
                        ends.i64_element(i) as int,
                        data[a] as int,
                    ) {
                        Some((s, e)) => if s < e {
                            Ok(shape.update(a, (e - s) as usize))
                        } else {
                            Err(OpError::InvalidRange)
                        },
                        None => Err(OpError::InvalidRange),
                    },
                }
            },
        }
    }
}

/// Once a range is refused, so is the slice.
proof fn lemma_slice_shape_err(data: Seq<usize>, starts: Tensor, ends: Tensor, axes: Tensor, m: nat, n: nat)
    requires
        m <= n,
        slice_shape(data, starts, ends, axes, m) is Err,
    ensures
        slice_shape(data, starts, ends, axes, n) == slice_shape(data, starts, ends, axes, m),
    decreases n,
{
    if m < n {
        lemma_slice_shape_err(data, starts, ends, axes, m, (n - 1) as nat);
    }
}

/// What a slice gives: an input of the data's shape with each sliced axis
/// cut to its range; the starts, ends and axes must be constant vectors of
/// the same shape.
pub open spec fn slice_applied(inputs: Seq<Var>, r: Result<Applied, OpError>) -> bool {
    if !(3 <= inputs.len() <= 5) {
        r == Err::<Applied, OpError>(OpError::InvalidInputCount)
    } else if inputs.len() != 4 {
        r == Err::<Applied, OpError>(OpError::UnsupportedInputCount)
    } else if inputs[3].shape_view().len() != 1 {
        r == Err::<Applied, OpError>(OpError::InvalidRank)
    } else if inputs[1].shape_view() != inputs[3].shape_view() || inputs[2].shape_view()
        != inputs[3].shape_view() {
        r == Err::<Applied, OpError>(OpError::ShapeMismatch)
    } else {
        match (inputs[1], inputs[2], inputs[3]) {
            (Var::Const(st), Var::Const(en), Var::Const(ax)) => match slice_shape(
                inputs[0].shape_view(),
                st,
                en,
                ax,
                ax.tensor_type().shape_view()[0] as nat,
            ) {
                Ok(shape) => single_input(r, inputs[0].elem_view(), shape),
                Err(e) => r == Err::<Applied, OpError>(e),
            },
            _ => r == Err::<Applied, OpError>(OpError::NotConst),
        }
    }
}

/// Whether a slice reads only `i64` ranges, from data whose dimensions fit
/// an `i64`.
pub open spec fn slice_in_bounds(inputs: Seq<Var>) -> bool {
    inputs.len() == 4 ==> {
        &&& forall|k: int|
            0 <= k < inputs[0].shape_view().len() ==> #[trigger] inputs[0].shape_view()[k]
                <= i64::MAX
        &&& match (inputs[1], inputs[2], inputs[3]) {
            (Var::Const(st), Var::Const(en), Var::Const(ax)) => inputs[3].shape_view().len() == 1
                && inputs[3].shape_view()[0] > 0 ==> st.tensor_type().elem_view() == ElementType::I64
                && en.tensor_type().elem_view() == ElementType::I64 && ax.tensor_type().elem_view()
                == ElementType::I64,
            _ => true,
        }
    }
}

/// Reads the `i`-th element of a vector of `i64` elements.
pub(crate) fn vector_element(t: &Tensor, i: usize) -> (r: i64)
    requires
        t.tensor_type().elem_view() == ElementType::I64,
        t.tensor_type().shape_view().len() == 1,
        i < t.tensor_type().shape_view()[0],
    ensures
        r == t.i64_element(seq![i]),
{
    let n = t.shape()[0];
    let bytes = t.as_bytes();
    let len = bytes.len();
    proof {
        assert(t.tensor_type().shape_view() =~= seq![n]);
        lemma_shape_product_single(n);
        lemma_vector_readable(n, len as nat, i);
    }
    let index = [i];
    assert(index@ =~= seq![i]);
    t.index_i64(&index)
}

fn apply_slice(inputs: &[Var]) -> (r: Result<Applied, OpError>)
    requires
        slice_in_bounds(inputs@),
    ensures
        slice_applied(inputs@, r),
{
    if !(3 <= inputs.len() && inputs.len() <= 5) {
        return Err(OpError::InvalidInputCount);
    }
    if inputs.len() != 4 {
        return Err(OpError::UnsupportedInputCount);
    }
    if inputs[3].rank() != 1 {
        return Err(OpError::InvalidRank);
    }
    if !same_shape(inputs[1].shape(), inputs[3].shape()) || !same_shape(
        inputs[2].shape(),
        inputs[3].shape(),
    ) {
        return Err(OpError::ShapeMismatch);
    }
    let data = &inputs[0];
    match (&inputs[1], &inputs[2], &inputs[3]) {
        (Var::Const(st), Var::Const(en), Var::Const(ax)) => {
            let rank = data.rank();
            let ds = data.shape();
            let n = ax.shape()[0];
            let mut shape: Vec<usize> = vstd::slice::slice_to_vec(ds);
            let mut i: usize = 0;
            while i < n
                invariant
                    i <= n,
                    inputs@.len() == 4,
                    *data == inputs@[0],
                    inputs@[1] == Var::Const(*st),
                    inputs@[2] == Var::Const(*en),
                    inputs@[3] == Var::Const(*ax),
                    ds@ == inputs@[0].shape_view(),
                    n == ax.tensor_type().shape_view()[0],
                    n > 0 ==> st.tensor_type().elem_view() == ElementType::I64
                        && en.tensor_type().elem_view() == ElementType::I64
                        && ax.tensor_type().elem_view() == ElementType::I64,
                    st.tensor_type().shape_view() == ax.tensor_type().shape_view(),
                    en.tensor_type().shape_view() == ax.tensor_type().shape_view(),
                    ax.tensor_type().shape_view().len() == 1,
                    rank == ds@.len(),
                    rank <= i64::MAX,
                    forall|k: int| 0 <= k < ds@.len() ==> #[trigger] ds@[k] <= i64::MAX,
                    slice_shape(ds@, *st, *en, *ax, i as nat) == Ok::<Seq<usize>, OpError>(shape@),
                    shape@.len() == rank,
                decreases n - i,
            {
                let start = vector_element(st, i);
                let end = vector_element(en, i);
                let axis = vector_element(ax, i);
                let a = match wrap_index(axis, rank) {
                    Some(a) => a,
                    None => {
                        proof {
                            lemma_slice_shape_err(ds@, *st, *en, *ax, (i + 1) as nat, n as nat);
                        }
                        return Err(OpError::InvalidAxis);
                    },
                };
                let range = match wrap_range(start..end, ds[a]) {
                    Some(range) => range,
                    None => {
                        proof {
                            lemma_slice_shape_err(ds@, *st, *en, *ax, (i + 1) as nat, n as nat);
                        }
                        return Err(OpError::InvalidRange);
                    },
                };
                if !(range.start < range.end) {
                    proof {
                        lemma_slice_shape_err(ds@, *st, *en, *ax, (i + 1) as nat, n as nat);
                    }
                    return Err(OpError::InvalidRange);
                }
                shape.set(a, range.end - range.start);
                i = i + 1;
            }
            input_output(data.elem_ty(), shape)
        },
        _ => Err(OpError::NotConst),
    }
}

/// Whether two shapes are equal.
fn same_shape(a: &[usize], b: &[usize]) -> (r: bool)
    ensures
        r == (a@ == b@),
{
    if a.len() != b.len() {
        return false;
    }
    let mut i: usize = 0;
    while i < a.len()
        invariant
            i <= a@.len(),
            a@.len() == b@.len(),
            a@.take(i as int) == b@.take(i as int),
        decreases a@.len() - i,
    {
        if a[i] != b[i] {
            assert(a@[i as int] != b@[i as int]);
            return false;
        }
        assert(a@.take(i + 1) =~= a@.take(i as int).push(a@[i as int]));
        assert(b@.take(i + 1) =~= b@.take(i as int).push(b@[i as int]));
        i = i + 1;
    }
    assert(a@.take(a@.len() as int) =~= a@);
    assert(b@.take(b@.len() as int) =~= b@);
    true
}

// ---------------------------------------------------------------------------
// Gather
// ---------------------------------------------------------------------------

/// What a gather along `axis` gives: for two constants, the constant that
/// [`Tensor::gather`] gathers; else an input of the gathered shape.
pub open spec fn gather_applied(axis: i64, inputs: Seq<Var>, r: Result<Applied, OpError>) -> bool {
    if inputs.len() != 2 {
        r == Err::<Applied, OpError>(OpError::InvalidInputCount)
    } else if dim_at(inputs[0].shape_view(), axis as int) is None {
        r == Err::<Applied, OpError>(OpError::InvalidAxis)
    } else {
        let ds = inputs[0].shape_view();
        let ax = wrapped_index(axis as int, ds.len() as int)->0;
        let shape = gather_shape(ds, inputs[1].shape_view(), ax);
        match (inputs[0], inputs[1]) {
            (Var::Const(d), Var::Const(ix)) => match wrapped_index(axis as int, shape.len() as int) {
                Some(start) => single_const(
                    r,
                    |t: Tensor|
                        t.tensor_type().elem_view() == d.tensor_type().elem_view()
                            && t.tensor_type().shape_view() == shape && t.bytes() == gather_bytes(
                            d,
                            ix,
                            start,
                            shape,
                            shape_product(shape),
                        ),
                ),
                None => r == Err::<Applied, OpError>(OpError::Tensor(TensorError::InvalidAxis)),
            },
            _ => single_input(r, inputs[0].elem_view(), shape),
        }
    }
}

/// Whether a gather fits the axis arithmetic and, for constants, reads only
/// what is there.
pub open spec fn gather_op_in_bounds(axis: i64, inputs: Seq<Var>) -> bool {
    inputs.len() == 2 && dim_at(inputs[0].shape_view(), axis as int) is Some ==> {
        &&& inputs[0].shape_view().len() + inputs[1].shape_view().len() <= i64::MAX + 1
        &&& match (inputs[0], inputs[1]) {
            (Var::Const(d), Var::Const(ix)) => gather_in_bounds(d, ix, axis as int),
            _ => true,
        }
    }
}

fn apply_gather(axis: i64, inputs: &[Var]) -> (r: Result<Applied, OpError>)
    requires
        gather_op_in_bounds(axis, inputs@),
    ensures
        gather_applied(axis, inputs@, r),
{
    if inputs.len() != 2 {
        return Err(OpError::InvalidInputCount);
    }
    if inputs[0].ty().dim(axis).is_none() {
        return Err(OpError::InvalidAxis);
    }
    match (&inputs[0], &inputs[1]) {
        (Var::Const(d), Var::Const(ix)) => match Tensor::gather(d, ix, axis) {
            Ok(t) => const_output(t),
            Err(e) => Err(OpError::Tensor(e)),
        },
        (d, ix) => match TensorType::gather(d.ty(), ix.ty(), axis) {
            Ok(ty) => {
                let mut v: Vec<Var> = Vec::new();
                v.push(Var::Input(ty));
                Ok(Applied::Outputs(v))
            },
            Err(e) => Err(OpError::Tensor(e)),
        },
    }
}

// ---------------------------------------------------------------------------
// Any operation
// ---------------------------------------------------------------------------

/// What `op` gives on `inputs`.
pub open spec fn applied(op: Operation, inputs: Seq<Var>, r: Result<Applied, OpError>) -> bool {
    match op {
        Operation::Gemm { trans_a, trans_b, .. } => gemm_applied(trans_a, trans_b, inputs, r),
        Operation::Tanh => unary_applied(inputs, r),
        Operation::Relu => unary_applied(inputs, r),
        Operation::Shape { start, end } => shape_applied(start, end, inputs, r),
        Operation::Constant { value } => constant_applied(value, inputs, r),
        Operation::Gather { axis } => gather_applied(axis, inputs, r),
        Operation::Add => arith_applied(ArithOp::Add, inputs, r),
        Operation::Div => arith_applied(ArithOp::Div, inputs, r),
        Operation::Mul => arith_applied(ArithOp::Mul, inputs, r),
        Operation::Slice => slice_applied(inputs, r),
        Operation::Max => extremum_applied(inputs, r),
        Operation::Min => extremum_applied(inputs, r),
        Operation::Concat { axis } => concat_applied(axis, inputs, r),
    }
}

/// Whether `op` on `inputs` stays within what it reads and what fits.
pub open spec fn apply_in_bounds(op: Operation, inputs: Seq<Var>) -> bool {
    match op {
        Operation::Shape { start, end } => shape_in_bounds(start, end, inputs),
        Operation::Gather { axis } => gather_op_in_bounds(axis, inputs),
        Operation::Add => arith_in_bounds(ArithOp::Add, inputs),
        Operation::Div => arith_in_bounds(ArithOp::Div, inputs),
        Operation::Mul => arith_in_bounds(ArithOp::Mul, inputs),
        Operation::Slice => slice_in_bounds(inputs),
        Operation::Concat { axis } => concat_in_bounds(axis, inputs),
        _ => true,
    }
}

impl Operation {
    /// The outputs of the operation on `inputs`, or why it refuses them.
    pub fn apply(&self, inputs: &[Var]) -> (r: Result<Applied, OpError>)
        requires
            apply_in_bounds(*self, inputs@),
        ensures
            applied(*self, inputs@, r),
    {
        match self {
            Operation::Gemm { trans_a, trans_b, .. } => apply_gemm(*trans_a, *trans_b, inputs),
            Operation::Tanh => apply_unary(inputs),
            Operation::Relu => apply_unary(inputs),
            Operation::Shape { start, end } => apply_shape(*start, *end, inputs),
            Operation::Constant { value } => apply_constant(value, inputs),
            Operation::Gather { axis } => apply_gather(*axis, inputs),
            Operation::Add => apply_arith(ArithOp::Add, inputs),
            Operation::Div => apply_arith(ArithOp::Div, inputs),
            Operation::Mul => apply_arith(ArithOp::Mul, inputs),
            Operation::Slice => apply_slice(inputs),
            Operation::Max => apply_extremum(inputs),
            Operation::Min => apply_extremum(inputs),
            Operation::Concat { axis } => apply_concat(*axis, inputs),
        }
    }
}

} // verus!
