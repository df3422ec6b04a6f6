use wdn::op::{Applied, OpError, Operation, Var};
use wdn::tensor::{ArithOp, ElementType, Tensor, TensorError, TensorType};

fn input(elem: ElementType, shape: &[usize]) -> Var {
    Var::Input(TensorType::new(elem, shape.to_vec()))
}

fn f32_input(shape: &[usize]) -> Var {
    input(ElementType::F32, shape)
}

fn i64_const(shape: &[usize], values: &[i64]) -> Var {
    Var::Const(Tensor::from_iter_i64(
        TensorType::new(ElementType::I64, shape.to_vec()),
        values,
    ))
}

fn f32_const(shape: &[usize], values: &[f32]) -> Var {
    let bytes: Vec<u8> = values.iter().flat_map(|v| v.to_le_bytes()).collect();
    Var::Const(Tensor::new(TensorType::new(ElementType::F32, shape.to_vec()), bytes).unwrap())
}

/// The type of the single input output.
fn output_type(r: Result<Applied, OpError>) -> (ElementType, Vec<usize>) {
    match r {
        Ok(Applied::Outputs(v)) => {
            assert_eq!(v.len(), 1);
            match &v[0] {
                Var::Input(t) => (t.elem_ty(), t.shape().to_vec()),
                Var::Const(_) => panic!("expected an input"),
            }
        }
        other => panic!("unexpected {other:?}"),
    }
}

/// The single constant output.
fn output_const(r: Result<Applied, OpError>) -> Tensor {
    match r {
        Ok(Applied::Outputs(mut v)) => {
            assert_eq!(v.len(), 1);
            match v.remove(0) {
                Var::Const(t) => t,
                Var::Input(_) => panic!("expected a constant"),
            }
        }
        other => panic!("unexpected {other:?}"),
    }
}

fn error(r: Result<Applied, OpError>) -> OpError {
    match r {
        Err(e) => e,
        Ok(a) => panic!("unexpected {a:?}"),
    }
}

#[test]
fn unary_operations_keep_the_type() {
    let x = f32_input(&[2, 3]);
    assert_eq!(
        output_type(Operation::Tanh.apply(&[x.clone()])),
        (ElementType::F32, vec![2, 3])
    );
    assert_eq!(
        output_type(Operation::Relu.apply(&[x.clone()])),
        (ElementType::F32, vec![2, 3])
    );
    assert_eq!(
        error(Operation::Relu.apply(&[x.clone(), x])),
        OpError::InvalidInputCount
    );
    assert_eq!(error(Operation::Tanh.apply(&[])), OpError::InvalidInputCount);
}

#[test]
fn constants_take_no_input() {
    let value = Tensor::from_iter_i64(TensorType::new(ElementType::I64, vec![2]), &[4, 5]);
    let op = Operation::Constant {
        value: value.clone(),
    };
    assert_eq!(output_const(op.apply(&[])), value);
    assert_eq!(
        error(op.apply(&[f32_input(&[1])])),
        OpError::InvalidInputCount
    );
}

#[test]
fn extrema_broadcast_their_inputs() {
    let a = f32_input(&[2, 1]);
    let b = f32_input(&[1, 3]);
    let c = f32_input(&[2, 3, 4]);
    assert_eq!(
        output_type(Operation::Max.apply(&[a.clone(), b.clone(), c])),
        (ElementType::F32, vec![2, 3, 4])
    );
    assert_eq!(
        output_type(Operation::Min.apply(&[a.clone()])),
        (ElementType::F32, vec![2, 1])
    );
    assert_eq!(error(Operation::Max.apply(&[])), OpError::InvalidInputCount);
    assert_eq!(
        error(Operation::Min.apply(&[a.clone(), input(ElementType::I64, &[2, 1])])),
        OpError::ElementTypeMismatch
    );
    assert_eq!(
        error(Operation::Max.apply(&[a, f32_input(&[3, 3])])),
        OpError::Tensor(TensorError::IncompatibleDimensions)
    );
}

#[test]
fn arithmetic_folds_i64_constants() {
    let a = i64_const(&[2], &[1, 2]);
    let b = i64_const(&[2], &[10, 20]);
    let sum = output_const(Operation::Add.apply(&[a.clone(), b.clone()]));
    assert_eq!(sum.iter_i64(), vec![11, 22]);
    let product = output_const(Operation::Mul.apply(&[a.clone(), b.clone()]));
    assert_eq!(product.iter_i64(), vec![10, 40]);
    let quotient = output_const(Operation::Div.apply(&[b.clone(), a.clone()]));
    assert_eq!(quotient.iter_i64(), vec![10, 10]);
    // An input makes the output an input of the broadcast shape.
    assert_eq!(
        output_type(Operation::Add.apply(&[input(ElementType::I64, &[2, 1]), b.clone()])),
        (ElementType::I64, vec![2, 1])
    );
    assert_eq!(
        error(Operation::Add.apply(&[a.clone(), b.clone(), a.clone()])),
        OpError::InvalidInputCount
    );
    assert_eq!(
        error(Operation::Div.apply(&[a.clone(), f32_input(&[2])])),
        OpError::ElementTypeMismatch
    );
    assert_eq!(
        error(Operation::Mul.apply(&[a, i64_const(&[3], &[1, 2, 3])])),
        OpError::Tensor(TensorError::IncompatibleDimensions)
    );
}

#[test]
fn arithmetic_on_f32_constants_is_left_to_fold() {
    let a = f32_const(&[2], &[1.5, 2.5]);
    let b = f32_const(&[1], &[2.0]);
    match Operation::Mul.apply(&[a, b]) {
        Ok(Applied::FoldF32 { op, a, b }) => {
            assert_eq!(op, ArithOp::Mul);
            assert_eq!(a.shape(), &[2]);
            assert_eq!(b.shape(), &[1]);
        }
        other => panic!("unexpected {other:?}"),
    }
}

#[test]
fn gemm_types() {
    let gemm = |trans_a, trans_b| Operation::Gemm {
        alpha: 1.0f32.to_bits(),
        beta: 1.0f32.to_bits(),
        trans_a,
        trans_b,
    };
    let a = f32_input(&[2, 3]);
    let b = f32_input(&[3, 4]);
    assert_eq!(
        output_type(gemm(false, false).apply(&[a.clone(), b.clone()])),
        (ElementType::F32, vec![2, 4])
    );
    assert_eq!(
        output_type(gemm(true, true).apply(&[f32_input(&[3, 2]), f32_input(&[4, 3])])),
        (ElementType::F32, vec![2, 4])
    );
    assert_eq!(
        output_type(gemm(false, false).apply(&[a.clone(), b.clone(), f32_input(&[2, 4])])),
        (ElementType::F32, vec![2, 4])
    );
    // The bias is matched against the output axis by axis from the front.
    assert_eq!(
        error(gemm(false, false).apply(&[a.clone(), b.clone(), f32_input(&[4])])),
        OpError::InvalidBias
    );
    assert_eq!(
        error(gemm(false, false).apply(&[a.clone(), b.clone(), input(ElementType::I64, &[2, 4])])),
        OpError::ElementTypeMismatch
    );
    assert_eq!(
        error(gemm(false, false).apply(&[a.clone(), a.clone()])),
        OpError::DimensionMismatch
    );
    assert_eq!(
        error(gemm(false, false).apply(&[f32_input(&[2]), b.clone()])),
        OpError::InvalidRank
    );
    assert_eq!(
        error(gemm(false, false).apply(&[a.clone()])),
        OpError::InvalidInputCount
    );
    assert_eq!(
        error(gemm(false, false).apply(&[a.clone(), input(ElementType::I64, &[3, 4])])),
        OpError::ElementTypeMismatch
    );
}

#[test]
fn shape_gives_dimensions() {
    let x = f32_input(&[2, 3, 4]);
    let all = output_const(Operation::Shape { start: 0, end: None }.apply(&[x.clone()]));
    assert_eq!(all.shape(), &[3]);
    assert_eq!(all.iter_i64(), vec![2, 3, 4]);
    let middle = output_const(
        Operation::Shape {
            start: 1,
            end: Some(-1),
        }
        .apply(&[x.clone()]),
    );
    assert_eq!(middle.iter_i64(), vec![3]);
    assert_eq!(
        error(Operation::Shape { start: 4, end: None }.apply(&[x.clone()])),
        OpError::InvalidRange
    );
    assert_eq!(
        error(Operation::Shape { start: 0, end: None }.apply(&[])),
        OpError::InvalidInputCount
    );
}

#[test]
fn slice_types() {
    let data = f32_input(&[5, 6]);
    let starts = i64_const(&[1], &[1]);
    let ends = i64_const(&[1], &[4]);
    let axes = i64_const(&[1], &[-1]);
    assert_eq!(
        output_type(Operation::Slice.apply(&[
            data.clone(),
            starts.clone(),
            ends.clone(),
            axes.clone()
        ])),
        (ElementType::F32, vec![5, 3])
    );
    let both = Operation::Slice.apply(&[
        data.clone(),
        i64_const(&[2], &[0, -2]),
        i64_const(&[2], &[2, 6]),
        i64_const(&[2], &[0, 1]),
    ]);
    assert_eq!(output_type(both), (ElementType::F32, vec![2, 2]));
    assert_eq!(
        error(Operation::Slice.apply(&[data.clone(), ends.clone(), starts.clone(), axes.clone()])),
        OpError::InvalidRange
    );
    assert_eq!(
        error(Operation::Slice.apply(&[
            data.clone(),
            starts.clone(),
            ends.clone(),
            i64_const(&[1], &[2])
        ])),
        OpError::InvalidAxis
    );
    assert_eq!(
        error(Operation::Slice.apply(&[
            data.clone(),
            starts.clone(),
            i64_const(&[1], &[7]),
            axes.clone()
        ])),
        OpError::InvalidRange
    );
    assert_eq!(
        error(Operation::Slice.apply(&[data.clone(), starts.clone(), ends.clone()])),
        OpError::UnsupportedInputCount
    );
    assert_eq!(
        error(Operation::Slice.apply(&[data.clone(), starts.clone()])),
        OpError::InvalidInputCount
    );
    assert_eq!(
        error(Operation::Slice.apply(&[
            data.clone(),
            input(ElementType::I64, &[1]),
            ends.clone(),
            axes.clone()
        ])),
        OpError::NotConst
    );
    assert_eq!(
        error(Operation::Slice.apply(&[
            data.clone(),
            starts.clone(),
            ends.clone(),
            i64_const(&[1, 1], &[0])
        ])),
        OpError::InvalidRank
    );
    assert_eq!(
        error(Operation::Slice.apply(&[
            data,
            i64_const(&[2], &[0, 0]),
            ends,
            axes
        ])),
        OpError::ShapeMismatch
    );
}

#[test]
fn gather_types_and_constants() {
    let op = Operation::Gather { axis: 1 };
    assert_eq!(
        output_type(op.apply(&[f32_input(&[3, 2]), input(ElementType::I64, &[4, 5])])),
        (ElementType::F32, vec![3, 4, 5])
    );
    let data = i64_const(&[3, 2], &[10, 11, 20, 21, 30, 31]);
    let indices = i64_const(&[2], &[1, 0]);
    let r = output_const(Operation::Gather { axis: 0 }.apply(&[data.clone(), indices.clone()]));
    assert_eq!(r.shape(), &[2, 2]);
    assert_eq!(r.iter_i64(), vec![20, 21, 10, 11]);
    assert_eq!(
        error(Operation::Gather { axis: 2 }.apply(&[data.clone(), indices.clone()])),
        OpError::InvalidAxis
    );
    assert_eq!(
        error(Operation::Gather { axis: 0 }.apply(&[data])),
        OpError::InvalidInputCount
    );
}

#[test]
fn concat_types() {
    let op = Operation::Concat { axis: 1 };
    let a = f32_input(&[2, 3]);
    let b = f32_input(&[2, 5]);
    assert_eq!(
        output_type(op.apply(&[a.clone(), b.clone(), a.clone()])),
        (ElementType::F32, vec![2, 11])
    );
    assert_eq!(
        output_type(Operation::Concat { axis: -2 }.apply(&[a.clone(), f32_input(&[4, 3])])),
        (ElementType::F32, vec![6, 3])
    );
    assert_eq!(
        error(op.apply(&[a.clone(), f32_input(&[3, 3])])),
        OpError::DimensionMismatch
    );
    assert_eq!(
        error(op.apply(&[a.clone(), f32_input(&[2, 3, 1])])),
        OpError::RankMismatch
    );
    assert_eq!(
        error(op.apply(&[a.clone(), input(ElementType::I64, &[2, 3])])),
        OpError::ElementTypeMismatch
    );
    assert_eq!(
        error(Operation::Concat { axis: 2 }.apply(&[a.clone(), b])),
        OpError::InvalidAxis
    );
    assert_eq!(error(op.apply(&[])), OpError::InvalidInputCount);
}
