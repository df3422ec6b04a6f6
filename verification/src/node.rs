//! The tensors, value types and nodes of an ONNX graph, held as the values
//! that are read of them, and the tensors, types and operations read from
//! them.
use crate::op::{OpError, Operation};
use crate::tensor::{fits_len, len_fits, shape_product, ElementType, Tensor, TensorError, TensorType};
use vstd::prelude::*;

verus! {

/// The ONNX code of the element type `float`.
pub const DATA_TYPE_FLOAT: i32 = 1;

/// The ONNX code of the element type `int64`.
pub const DATA_TYPE_INT64: i32 = 7;

/// The bits of the `f32` value 1.
pub const F32_ONE_BITS: u32 = 0x3f80_0000;

/// A tensor of an ONNX graph.
pub struct TensorData {
    pub name: String,
    /// The ONNX code of its element type.
    pub data_type: i32,
    pub dims: Vec<i64>,
    pub raw_data: Vec<u8>,
    /// Whether the tensor is one segment of a larger one.
    pub segmented: bool,
    /// Whether its data is stored outside the model.
    pub external: bool,
}

/// A dimension of a value type.
pub enum DimData {
    Value(i64),
    /// A named dimension, whose value is not known.
    Param(String),
    Unset,
}

/// The type of a value of an ONNX graph.
pub enum TypeData {
    /// A tensor with the ONNX code of its element type and its dimensions,
    /// if they are given.
    Tensor { elem_type: i32, shape: Option<Vec<DimData>> },
    /// A type other than a tensor.
    Other,
    Unset,
}

/// An input or output of an ONNX graph.
pub struct ValueInfoData {
    pub name: String,
    pub ty: Option<TypeData>,
}

/// An attribute of a node.
pub struct NodeAttribute {
    pub name: String,
    /// The bits of its `f32` value.
    pub f: u32,
    pub i: i64,
    pub t: Option<TensorData>,
}

/// A node of an ONNX graph.
pub struct NodeData {
    pub name: String,
    pub op_type: String,
    pub input: Vec<String>,
    pub output: Vec<String>,
    pub attribute: Vec<NodeAttribute>,
}

/// The element type of an ONNX code, if it is supported.
pub open spec fn element_type_of(code: i32) -> Option<ElementType> {
    if code == DATA_TYPE_FLOAT {
        Some(ElementType::F32)
    } else if code == DATA_TYPE_INT64 {
        Some(ElementType::I64)
    } else {
        None
    }
}

/// The dimensions of a tensor, if none is negative or too large.
pub open spec fn dims_of(dims: Seq<i64>) -> Option<Seq<usize>> {
    if forall|k: int| 0 <= k < dims.len() ==> 0 <= #[trigger] dims[k] <= usize::MAX {
        Some(dims.map_values(|d: i64| d as usize))
    } else {
        None
    }
}

/// What reading the type of a tensor gives.
pub open spec fn tensor_type_read(t: TensorData, r: Result<TensorType, OpError>) -> bool {
    match element_type_of(t.data_type) {
        None => r == Err::<TensorType, OpError>(OpError::UnsupportedElementType),
        Some(e) => match dims_of(t.dims@) {
            None => r == Err::<TensorType, OpError>(OpError::InvalidDimension),
            Some(s) => r matches Ok(ty) && ty.elem_view() == e && ty.shape_view() == s,
        },
    }
}

/// What reading a tensor gives: its raw data must be given, whole and in
/// the model, and of the size of its type.
pub open spec fn tensor_read(t: TensorData, r: Result<Tensor, OpError>) -> bool {
    if t.raw_data@.len() == 0 {
        r == Err::<Tensor, OpError>(OpError::MissingRawData)
    } else if t.segmented {
        r == Err::<Tensor, OpError>(OpError::SegmentedData)
    } else if t.external {
        r == Err::<Tensor, OpError>(OpError::ExternalData)
    } else {
        match element_type_of(t.data_type) {
            None => r == Err::<Tensor, OpError>(OpError::UnsupportedElementType),
            Some(e) => match dims_of(t.dims@) {
                None => r == Err::<Tensor, OpError>(OpError::InvalidDimension),
                Some(s) => if t.raw_data@.len() == e.byte_len() * shape_product(s) {
                    r matches Ok(x) && x.tensor_type().elem_view() == e
                        && x.tensor_type().shape_view() == s && x.bytes() == t.raw_data@
                } else {
                    r == Err::<Tensor, OpError>(OpError::Tensor(TensorError::InvalidDataLength))
                },
            },
        }
    }
}

/// Whether the size of a tensor, where its type is read, can be computed.
pub open spec fn tensor_in_bounds(t: TensorData) -> bool {
    &&& t.dims@.len() <= i64::MAX
    &&& match (element_type_of(t.data_type), dims_of(t.dims@)) {
        (Some(e), Some(s)) => len_fits(e, s),
        _ => true,
    }
}

/// The dimensions of a value type, if each is a value that is not negative
/// or too large.
pub open spec fn dim_values(dims: Seq<DimData>) -> Option<Seq<usize>> {
    if forall|k: int|
        0 <= k < dims.len() ==> (#[trigger] dims[k] matches DimData::Value(v) && 0 <= v
            <= usize::MAX) {
        Some(dims.map_values(|d: DimData| (d->Value_0) as usize))
    } else {
        None
    }
}

/// What reading the type of a value gives: it must be a tensor of a
/// supported element type and of known dimensions.
pub open spec fn value_type_read(info: ValueInfoData, r: Result<TensorType, OpError>) -> bool {
    match info.ty {
        None => r == Err::<TensorType, OpError>(OpError::MissingType),
        Some(TypeData::Unset) => r == Err::<TensorType, OpError>(OpError::MissingType),
        Some(TypeData::Other) => r == Err::<TensorType, OpError>(OpError::UnsupportedType),
        Some(TypeData::Tensor { elem_type, shape }) => match element_type_of(elem_type) {
            None => r == Err::<TensorType, OpError>(OpError::UnsupportedElementType),
            Some(e) => match shape {
                None => r == Err::<TensorType, OpError>(OpError::MissingShape),
                Some(dims) => match dim_values(dims@) {
                    None => r == Err::<TensorType, OpError>(OpError::InvalidDimension),
                    Some(s) => r matches Ok(ty) && ty.elem_view() == e && ty.shape_view() == s,
                },
            },
        },
    }
}

/// Whether the rank of a value type fits the axis arithmetic.
pub open spec fn value_info_in_bounds(info: ValueInfoData) -> bool {
    match info.ty {
        Some(TypeData::Tensor { shape: Some(dims), .. }) => dims@.len() <= i64::MAX,
        _ => true,
    }
}

impl ElementType {
    /// The element type of an ONNX code.
    pub fn from_proto(ty: i32) -> (r: Result<ElementType, OpError>)
        ensures
            match element_type_of(ty) {
                Some(e) => r == Ok::<ElementType, OpError>(e),
                None => r == Err::<ElementType, OpError>(OpError::UnsupportedElementType),
            },
    {
        if ty == DATA_TYPE_FLOAT {
            Ok(ElementType::F32)
        } else if ty == DATA_TYPE_INT64 {
            Ok(ElementType::I64)
        } else {
            Err(OpError::UnsupportedElementType)
        }
    }
}

/// A dimension as a `usize`, if it is not negative or too large.
fn dim_usize(d: i64) -> (r: Option<usize>)
    ensures
        match r {
            Some(u) => 0 <= d <= usize::MAX && u == d,
            None => !(0 <= d <= usize::MAX),
        },
{
    if d < 0 {
        None
    } else if (d as u64) > (usize::MAX as u64) {
        None
    } else {
        Some(d as usize)
    }
}

impl TensorType {
    /// The type of a tensor of the graph.
    pub fn from_tensor_proto(tensor: &TensorData) -> (r: Result<TensorType, OpError>)
        requires
            tensor.dims@.len() <= i64::MAX,
        ensures
            tensor_type_read(*tensor, r),
    {
        let elem = match ElementType::from_proto(tensor.data_type) {
            Ok(e) => e,
            Err(e) => {
                return Err(e);
            },
        };
        let mut shape: Vec<usize> = Vec::new();
        let mut k: usize = 0;
        while k < tensor.dims.len()
            invariant
                k <= tensor.dims@.len(),
                element_type_of(tensor.data_type) == Some(elem),
                shape@.len() == k,
                forall|j: int|
                    0 <= j < k ==> 0 <= #[trigger] tensor.dims@[j] <= usize::MAX && shape@[j]
                        == tensor.dims@[j],
            decreases tensor.dims@.len() - k,
        {
            match dim_usize(tensor.dims[k]) {
                Some(d) => shape.push(d),
                None => {
                    assert(dims_of(tensor.dims@) is None);
                    return Err(OpError::InvalidDimension);
                },
            }
            k = k + 1;
        }
        assert(shape@ =~= tensor.dims@.map_values(|d: i64| d as usize));
        Ok(TensorType::new(elem, shape))
    }

    /// The type of an input or output of the graph.
    pub fn from_value_info_proto(value_info: &ValueInfoData) -> (r: Result<TensorType, OpError>)
        requires
            value_info_in_bounds(*value_info),
        ensures
            value_type_read(*value_info, r),
    {
        match &value_info.ty {
            None => Err(OpError::MissingType),
            Some(TypeData::Unset) => Err(OpError::MissingType),
            Some(TypeData::Other) => Err(OpError::UnsupportedType),
            Some(TypeData::Tensor { elem_type, shape }) => {
                let elem = match ElementType::from_proto(*elem_type) {
                    Ok(e) => e,
                    Err(e) => {
                        return Err(e);
                    },
                };
                let dims = match shape {
                    Some(dims) => dims,
                    None => {
                        return Err(OpError::MissingShape);
                    },
                };
                let mut out: Vec<usize> = Vec::new();
                let mut k: usize = 0;
                while k < dims.len()
                    invariant
                        k <= dims@.len(),
                        value_info.ty == Some(TypeData::Tensor { elem_type: *elem_type, shape: *shape }),
                        *shape == Some(*dims),
                        element_type_of(*elem_type) == Some(elem),
                        out@.len() == k,
                        forall|j: int|
                            0 <= j < k ==> (#[trigger] dims@[j] matches DimData::Value(v) && 0 <= v
                                <= usize::MAX && out@[j] == v),
                    decreases dims@.len() - k,
                {
                    let d = match &dims[k] {
                        DimData::Value(v) => dim_usize(*v),
                        _ => None,
                    };
                    match d {
                        Some(d) => out.push(d),
                        None => {
                            assert(dim_values(dims@) is None);
                            return Err(OpError::InvalidDimension);
                        },
                    }
                    k = k + 1;
                }
                assert(out@ =~= dims@.map_values(|d: DimData| (d->Value_0) as usize));
                Ok(TensorType::new(elem, out))
            },
        }
    }
}

impl Tensor {
    /// The tensor of the graph that `tensor` holds.
    pub fn from_proto(tensor: &TensorData) -> (r: Result<Tensor, OpError>)
        requires
            tensor_in_bounds(*tensor),
        ensures
            tensor_read(*tensor, r),
    {
        if tensor.raw_data.len() == 0 {
            return Err(OpError::MissingRawData);
        }
        if tensor.segmented {
            return Err(OpError::SegmentedData);
        }
        if tensor.external {
            return Err(OpError::ExternalData);
        }
        let ty = match TensorType::from_tensor_proto(tensor) {
            Ok(t) => t,
            Err(e) => {
                return Err(e);
            },
        };
        match Tensor::new(ty, tensor.raw_data.clone()) {
            Ok(t) => Ok(t),
            Err(e) => Err(OpError::Tensor(e)),
        }
    }
}

/// The position of the first attribute of `attrs` from `k` on named `name`.
pub open spec fn attribute_from(attrs: Seq<NodeAttribute>, name: Seq<char>, k: int) -> Option<int>
    decreases attrs.len() - k,
{
    if k < 0 || k >= attrs.len() {
        None
    } else if attrs[k].name@ == name {
        Some(k)
    } else {
        attribute_from(attrs, name, k + 1)
    }
}

/// The first attribute of `attrs` named `name`.
pub open spec fn first_attribute(attrs: Seq<NodeAttribute>, name: Seq<char>) -> Option<NodeAttribute> {
    match attribute_from(attrs, name, 0) {
        Some(k) => Some(attrs[k]),
        None => None,
    }
}

/// The `f32` bits of the first attribute named `name`, or `default`.
pub open spec fn attribute_f(attrs: Seq<NodeAttribute>, name: Seq<char>, default: u32) -> u32 {
    match first_attribute(attrs, name) {
        Some(a) => a.f,
        None => default,
    }
}

/// The integer of the first attribute named `name`.
pub open spec fn attribute_i(attrs: Seq<NodeAttribute>, name: Seq<char>) -> Option<i64> {
    match first_attribute(attrs, name) {
        Some(a) => Some(a.i),
        None => None,
    }
}

/// Whether the first attribute named `name` holds a nonzero integer.
pub open spec fn attribute_flag(attrs: Seq<NodeAttribute>, name: Seq<char>) -> bool {
    match first_attribute(attrs, name) {
        Some(a) => a.i != 0,
        None => false,
    }
}

/// What the constant of a node gives: the tensor of its first attribute
/// named `value`, which must hold one.
pub open spec fn constant_read(attrs: Seq<NodeAttribute>, r: Result<Operation, OpError>) -> bool {
    match first_attribute(attrs, "value"@) {
        Some(a) => match a.t {
            Some(t) => match r {
                Ok(Operation::Constant { value }) => tensor_read(t, Ok(value)),
                Ok(_) => false,
                Err(e) => tensor_read(t, Err(e)),
            },
            None => r == Err::<Operation, OpError>(OpError::UnsupportedConstant),
        },
        None => r == Err::<Operation, OpError>(OpError::UnsupportedConstant),
    }
}

/// What the operation of a node is: named by its type, with the attributes
/// it takes read from the first of its attributes of each name. The start
/// and end of a `Shape` are both read from `transB`.
pub open spec fn node_operation(node: NodeData, r: Result<Operation, OpError>) -> bool {
    let ty = node.op_type@;
    let attrs = node.attribute@;
    if ty == "Gemm"@ {
        r == Ok::<Operation, OpError>(
            Operation::Gemm {
                alpha: attribute_f(attrs, "alpha"@, F32_ONE_BITS),
                beta: attribute_f(attrs, "beta"@, F32_ONE_BITS),
                trans_a: attribute_flag(attrs, "transA"@),
                trans_b: attribute_flag(attrs, "transB"@),
            },
        )
    } else if ty == "Relu"@ {
        r == Ok::<Operation, OpError>(Operation::Relu)
    } else if ty == "Tanh"@ {
        r == Ok::<Operation, OpError>(Operation::Tanh)
    } else if ty == "Shape"@ {
        r == Ok::<Operation, OpError>(
            Operation::Shape {
                start: match attribute_i(attrs, "transB"@) {
                    Some(i) => i,
                    None => 0,
                },
                end: attribute_i(attrs, "transB"@),
            },
        )
    } else if ty == "Constant"@ {
        constant_read(attrs, r)
    } else if ty == "Gather"@ {
        r == Ok::<Operation, OpError>(
            Operation::Gather {
                axis: match attribute_i(attrs, "axis"@) {
                    Some(i) => i,
                    None => 0,
                },
            },
        )
    } else if ty == "Add"@ {
        r == Ok::<Operation, OpError>(Operation::Add)
    } else if ty == "Div"@ {
        r == Ok::<Operation, OpError>(Operation::Div)
    } else if ty == "Max"@ {
        r == Ok::<Operation, OpError>(Operation::Max)
    } else if ty == "Min"@ {
        r == Ok::<Operation, OpError>(Operation::Min)
    } else if ty == "Mul"@ {
        r == Ok::<Operation, OpError>(Operation::Mul)
    } else if ty == "Slice"@ {
        r == Ok::<Operation, OpError>(Operation::Slice)
    } else if ty == "Concat"@ {
        match attribute_i(attrs, "axis"@) {
            Some(axis) => r == Ok::<Operation, OpError>(Operation::Concat { axis }),
            None => r == Err::<Operation, OpError>(OpError::MissingAttribute),
        }
    } else {
        r == Err::<Operation, OpError>(OpError::UnsupportedOperation)
    }
}

/// Whether the constant of a node, where it has one, can be read.
pub open spec fn node_in_bounds(node: NodeData) -> bool {
    match first_attribute(node.attribute@, "value"@) {
        Some(a) => match a.t {
            Some(t) => tensor_in_bounds(t),
            None => true,
        },
        None => true,
    }
}

/// The first attribute of `attrs` named `name`.
fn find_attribute<'a>(attrs: &'a Vec<NodeAttribute>, name: &str) -> (r: Option<&'a NodeAttribute>)
    ensures
        match r {
            Some(a) => first_attribute(attrs@, name@) == Some(*a),
            None => first_attribute(attrs@, name@) is None,
        },
{
    let wanted = String::from_str(name);
    let mut k: usize = 0;
    while k < attrs.len()
        invariant
            k <= attrs@.len(),
            wanted@ == name@,
            attribute_from(attrs@, name@, 0) == attribute_from(attrs@, name@, k as int),
        decreases attrs@.len() - k,
    {
        if attrs[k].name == wanted {
            return Some(&attrs[k]);
        }
        k = k + 1;
    }
    None
}

/// Whether `s` is `t`.
fn is(s: &String, t: &str) -> (r: bool)
    ensures
        r == (s@ == t@),
{
    *s == String::from_str(t)
}

impl Operation {
    /// The operation of a node of the graph.
    pub fn from_proto(node: &NodeData) -> (r: Result<Operation, OpError>)
        requires
            node_in_bounds(*node),
        ensures
            node_operation(*node, r),
    {
        let ty = &node.op_type;
        let attrs = &node.attribute;
        if is(ty, "Gemm") {
            let alpha = match find_attribute(attrs, "alpha") {
                Some(a) => a.f,
                None => F32_ONE_BITS,
            };
            let beta = match find_attribute(attrs, "beta") {
                Some(a) => a.f,
                None => F32_ONE_BITS,
            };
            let trans_a = match find_attribute(attrs, "transA") {
                Some(a) => a.i != 0,
                None => false,
            };
            let trans_b = match find_attribute(attrs, "transB") {
                Some(a) => a.i != 0,
                None => false,
            };
            Ok(Operation::Gemm { alpha, beta, trans_a, trans_b })
        } else if is(ty, "Relu") {
            Ok(Operation::Relu)
        } else if is(ty, "Tanh") {
            Ok(Operation::Tanh)
        } else if is(ty, "Shape") {
            let start = match find_attribute(attrs, "transB") {
                Some(a) => a.i,
                None => 0,
            };
            let end = match find_attribute(attrs, "transB") {
                Some(a) => Some(a.i),
                None => None,
            };
            Ok(Operation::Shape { start, end })
        } else if is(ty, "Constant") {
            match find_attribute(attrs, "value") {
                Some(a) => match &a.t {
                    Some(t) => match Tensor::from_proto(t) {
                        Ok(value) => Ok(Operation::Constant { value }),
                        Err(e) => Err(e),
                    },
                    None => Err(OpError::UnsupportedConstant),
                },
                None => Err(OpError::UnsupportedConstant),
            }
        } else if is(ty, "Gather") {
            let axis = match find_attribute(attrs, "axis") {
                Some(a) => a.i,
                None => 0,
            };
            Ok(Operation::Gather { axis })
        } else if is(ty, "Add") {
            Ok(Operation::Add)
        } else if is(ty, "Div") {
            Ok(Operation::Div)
        } else if is(ty, "Max") {
            Ok(Operation::Max)
        } else if is(ty, "Min") {
            Ok(Operation::Min)
        } else if is(ty, "Mul") {
            Ok(Operation::Mul)
        } else if is(ty, "Slice") {
            Ok(Operation::Slice)
        } else if is(ty, "Concat") {
            match find_attribute(attrs, "axis") {
                Some(a) => Ok(Operation::Concat { axis: a.i }),
                None => Err(OpError::MissingAttribute),
            }
        } else {
            Err(OpError::UnsupportedOperation)
        }
    }
}

/// Whether a tensor can be read without overflow (see
/// [`tensor_in_bounds`]).
pub fn tensor_fits(t: &TensorData) -> (r: bool)
    ensures
        r == tensor_in_bounds(*t),
{
    if t.dims.len() as u64 > i64::MAX as u64 {
        return false;
    }
    let elem = match ElementType::from_proto(t.data_type) {
        Ok(e) => e,
        Err(_) => {
            return true;
        },
    };
    let mut shape: Vec<usize> = Vec::new();
    let mut k: usize = 0;
    while k < t.dims.len()
        invariant
            k <= t.dims@.len(),
            t.dims@.len() <= i64::MAX,
            element_type_of(t.data_type) == Some(elem),
            shape@.len() == k,
            forall|j: int| 0 <= j < k ==> 0 <= #[trigger] t.dims@[j] <= usize::MAX && shape@[j] == t.dims@[j] as usize,
        decreases t.dims@.len() - k,
    {
        let d = t.dims[k];
        if d < 0 || d as u64 > usize::MAX as u64 {
            assert(!(0 <= t.dims@[k as int] <= usize::MAX));
            assert(dims_of(t.dims@) is None);
            return true;
        }
        shape.push(d as usize);
        k = k + 1;
    }
    assert(shape@ =~= t.dims@.map_values(|d: i64| d as usize));
    fits_len(elem, shape.as_slice())
}

/// Whether the type of a value can be read without overflow (see
/// [`value_info_in_bounds`]).
pub fn value_info_fits(info: &ValueInfoData) -> (r: bool)
    ensures
        r == value_info_in_bounds(*info),
{
    match &info.ty {
        Some(TypeData::Tensor { shape: Some(dims), .. }) => dims.len() as u64 <= i64::MAX as u64,
        _ => true,
    }
}

/// Whether the `value` attribute of a node, if it holds a tensor, can be
/// read without overflow (see [`node_in_bounds`]).
pub fn node_value_fits(node: &NodeData) -> (r: bool)
    ensures
        r == node_in_bounds(*node),
{
    match find_attribute(&node.attribute, "value") {
        Some(a) => match &a.t {
            Some(t) => tensor_fits(t),
            None => true,
        },
        None => true,
    }
}

} // verus!
