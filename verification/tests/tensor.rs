use wdn::tensor::{fits_len, wrap_index, wrap_range, ArithOp, ElementType, Tensor, TensorError, TensorType};

fn ty(shape: &[usize]) -> TensorType {
    TensorType::new(ElementType::F32, shape.to_vec())
}

#[test]
fn element_sizes() {
    assert_eq!(ElementType::F32.len(), 4);
    assert_eq!(ElementType::I64.len(), 8);
}

#[test]
fn tensor_type_accessors() {
    let t = TensorType::new(ElementType::I64, vec![2, 3, 4]);
    assert_eq!(t.elem_ty(), ElementType::I64);
    assert_eq!(t.shape(), &[2, 3, 4]);
    assert_eq!(t.rank(), 3);
    assert_eq!(t.len(), 8 * 24);
    assert_eq!(t.dim(0), Some(2));
    assert_eq!(t.dim(-1), Some(4));
    assert_eq!(t.dim(-3), Some(2));
    assert_eq!(t.dim(3), None);
    assert_eq!(t.dim(-4), None);
    assert_eq!(t.dims(1..3), Some(&[3usize, 4][..]));
    assert_eq!(t.dims(0..-1), Some(&[2usize, 3][..]));
    assert_eq!(t.dims(-1..3), Some(&[4usize][..]));
    assert_eq!(t.dims(0..4), None);
    assert_eq!(t.dims(3..3), None);
    assert_eq!(t.clone(), t);
}

#[test]
fn tensor_type_len() {
    assert_eq!(ty(&[2, 3]).len(), 24);
    assert_eq!(TensorType::new(ElementType::I64, vec![]).len(), 8);
    assert_eq!(ty(&[0, 5]).len(), 0);
}

#[test]
fn wrapping() {
    assert_eq!(wrap_index(0, 3), Some(0));
    assert_eq!(wrap_index(2, 3), Some(2));
    assert_eq!(wrap_index(3, 3), None);
    assert_eq!(wrap_index(-1, 3), Some(2));
    assert_eq!(wrap_index(-3, 3), Some(0));
    assert_eq!(wrap_index(-4, 3), None);
    assert_eq!(wrap_index(0, 0), None);
    assert_eq!(wrap_range(0..3, 3), Some(0..3));
    assert_eq!(wrap_range(-2..-1, 3), Some(1..2));
    assert_eq!(wrap_range(3..3, 3), None);
    assert_eq!(wrap_range(0..4, 3), None);
}

#[test]
fn unidirectional_broadcasts() {
    // The last dimension of the result is read from axis 0 of both shapes.
    let r = TensorType::unidirectional_broadcast(ElementType::I64, &ty(&[4, 3]), &ty(&[1, 3]))
        .unwrap();
    assert_eq!(r.shape(), &[3, 4]);
    assert_eq!(r.elem_ty(), ElementType::I64);
    let r = TensorType::unidirectional_broadcast(ElementType::F32, &ty(&[5]), &ty(&[])).unwrap();
    assert_eq!(r.shape(), &[5]);
    assert_eq!(
        TensorType::unidirectional_broadcast(ElementType::F32, &ty(&[2]), &ty(&[3])),
        Err(TensorError::IncompatibleDimensions)
    );
    assert_eq!(
        TensorType::unidirectional_broadcast(ElementType::F32, &ty(&[]), &ty(&[2])),
        Err(TensorError::IncompatibleDimensions)
    );
    assert_eq!(
        TensorType::unidirectional_broadcast(ElementType::F32, &ty(&[2, 3]), &ty(&[3])),
        Err(TensorError::IncompatibleDimensions)
    );
}

#[test]
fn multidirectional_broadcasts() {
    let a = ty(&[2, 1]);
    let b = ty(&[1, 3]);
    let r = TensorType::multidirectional_broadcast(ElementType::F32, &[&a, &b]).unwrap();
    assert_eq!(r.shape(), &[2, 3]);
    let c = ty(&[2, 3, 5]);
    let r = TensorType::multidirectional_broadcast(ElementType::F32, &[&a, &b, &c]).unwrap();
    assert_eq!(r.shape(), &[2, 3, 5]);
    assert_eq!(
        TensorType::multidirectional_broadcast(ElementType::F32, &[&ty(&[2, 3]), &ty(&[3])]),
        Err(TensorError::IncompatibleDimensions)
    );
    assert_eq!(
        TensorType::multidirectional_broadcast(ElementType::F32, &[]),
        Err(TensorError::NoTensors)
    );
    let r = TensorType::multidirectional_broadcast(ElementType::I64, &[&ty(&[4])]).unwrap();
    assert_eq!(r.shape(), &[4]);
}

#[test]
fn multidirectional_broadcast_ignores_order() {
    let a = ty(&[2, 1, 5]);
    let b = ty(&[1, 3]);
    let c = ty(&[2]);
    let ab = TensorType::multidirectional_broadcast(ElementType::F32, &[&a, &b, &c]).unwrap();
    let ba = TensorType::multidirectional_broadcast(ElementType::F32, &[&c, &b, &a]).unwrap();
    assert_eq!(ab.shape(), ba.shape());
    assert_eq!(ab.shape(), &[2, 3, 5]);
    let bad = [ty(&[2, 3]), ty(&[3])];
    assert_eq!(
        TensorType::multidirectional_broadcast(ElementType::F32, &[&bad[0], &bad[1]]),
        TensorType::multidirectional_broadcast(ElementType::F32, &[&bad[1], &bad[0]])
    );
}

#[test]
fn gather_types() {
    let data = ty(&[3, 3]);
    let indices = TensorType::new(ElementType::I64, vec![1, 2]);
    let r = TensorType::gather(&data, &indices, 1).unwrap();
    assert_eq!(r.shape(), &[3, 1, 2]);
    assert_eq!(r.elem_ty(), ElementType::F32);
    let r = TensorType::gather(&data, &indices, -2).unwrap();
    assert_eq!(r.shape(), &[1, 2, 3]);
    assert_eq!(
        TensorType::gather(&data, &indices, 2),
        Err(TensorError::InvalidAxis)
    );
}

#[test]
fn index_tuples() {
    let r = ty(&[2, 3]).indices();
    assert_eq!(
        r,
        vec![
            vec![0, 0],
            vec![0, 1],
            vec![0, 2],
            vec![1, 0],
            vec![1, 1],
            vec![1, 2]
        ]
    );
    assert_eq!(ty(&[]).indices(), vec![Vec::<usize>::new()]);
    assert!(ty(&[2, 0]).indices().is_empty());
}

fn f32_tensor(shape: &[usize], values: &[f32]) -> Tensor {
    let bytes: Vec<u8> = values.iter().flat_map(|v| v.to_le_bytes()).collect();
    Tensor::new(TensorType::new(ElementType::F32, shape.to_vec()), bytes).unwrap()
}

fn i64_tensor(shape: &[usize], values: &[i64]) -> Tensor {
    Tensor::from_iter_i64(TensorType::new(ElementType::I64, shape.to_vec()), values)
}

fn f32_values(t: &Tensor) -> Vec<f32> {
    t.as_bytes()
        .chunks(4)
        .map(|c| f32::from_le_bytes([c[0], c[1], c[2], c[3]]))
        .collect()
}

#[test]
fn gather() {
    let data = f32_tensor(&[3, 3], &[1.0, 1.2, 1.9, 2.3, 3.4, 3.9, 4.5, 5.7, 5.9]);
    let indices = i64_tensor(&[1, 2], &[0, 2]);
    let axis = 1;

    assert_eq!(
        Tensor::gather(&data, &indices, axis).unwrap(),
        f32_tensor(&[3, 1, 2], &[1.0, 1.9, 2.3, 3.9, 4.5, 5.9])
    )
}

#[test]
fn gather_rows_and_negative_indices() {
    let data = i64_tensor(&[3, 2], &[10, 11, 20, 21, 30, 31]);
    let indices = i64_tensor(&[2], &[-1, 0]);
    let r = Tensor::gather(&data, &indices, 0).unwrap();
    assert_eq!(r.shape(), &[2, 2]);
    assert_eq!(r.iter_i64(), vec![30, 31, 10, 11]);
    // A negative axis counts from the end of the output, which matches the
    // data for indices of rank 1.
    let r = Tensor::gather(&data, &indices, -1).unwrap();
    assert_eq!(r.shape(), &[3, 2]);
    assert_eq!(r.iter_i64(), vec![11, 10, 21, 20, 31, 30]);
}

#[test]
fn gather_invalid_axis() {
    let data = i64_tensor(&[3], &[1, 2, 3]);
    let indices = i64_tensor(&[1], &[0]);
    assert_eq!(Tensor::gather(&data, &indices, 1), Err(TensorError::InvalidAxis));
    assert_eq!(Tensor::gather(&data, &indices, -2), Err(TensorError::InvalidAxis));
    // A scalar index removes the axis: the last axis of the data is then
    // outside the output.
    let data = i64_tensor(&[2, 2], &[1, 2, 3, 4]);
    let scalar = i64_tensor(&[], &[1]);
    assert_eq!(Tensor::gather(&data, &scalar, 1), Err(TensorError::InvalidAxis));
    let r = Tensor::gather(&data, &scalar, 0).unwrap();
    assert_eq!(r.shape(), &[2]);
    assert_eq!(r.iter_i64(), vec![3, 4]);
}

#[test]
fn tensor_new_checks_length() {
    let ty = TensorType::new(ElementType::F32, vec![2]);
    assert_eq!(Tensor::new(ty.clone(), vec![0; 7]), Err(TensorError::InvalidDataLength));
    let t = Tensor::new(ty, vec![0; 8]).unwrap();
    assert_eq!(t.rank(), 1);
    assert_eq!(t.dim(0), Some(2));
    assert_eq!(t.elem_ty(), ElementType::F32);
    assert_eq!(f32_values(&t), vec![0.0, 0.0]);
}

#[test]
fn i64_round_trip() {
    let values = [0, 1, -1, i64::MAX, i64::MIN, 0x0102_0304_0506_0708];
    let t = i64_tensor(&[2, 3], &values);
    assert_eq!(t.iter_i64(), values.to_vec());
    assert_eq!(&t.as_bytes()[40..48], &[8, 7, 6, 5, 4, 3, 2, 1]);
    assert_eq!(t.index_i64(&[1, 2]), 0x0102_0304_0506_0708);
    assert_eq!(t.index_i64(&[0, 1]), 1);
    assert_eq!(t.index_raw(&[0, 2]), &[0xff; 8]);
}

#[test]
fn index_skips_unit_axes() {
    let t = i64_tensor(&[1, 3], &[7, 8, 9]);
    // Any index along an axis of dimension 1 reads the single element there.
    assert_eq!(t.index_i64(&[5, 2]), 9);
    assert_eq!(t.index_i64(&[0, 0]), 7);
}

#[test]
fn elementwise_i64() {
    let a = i64_tensor(&[2, 1], &[10, 20]);
    let b = i64_tensor(&[1, 3], &[1, 2, 3]);
    let r = Tensor::elementwise_i64(&a, &b, ArithOp::Add).unwrap();
    assert_eq!(r.shape(), &[2, 3]);
    assert_eq!(r.iter_i64(), vec![11, 12, 13, 21, 22, 23]);
    let r = Tensor::elementwise_i64(&a, &b, ArithOp::Mul).unwrap();
    assert_eq!(r.iter_i64(), vec![10, 20, 30, 20, 40, 60]);
    let c = i64_tensor(&[2], &[-7, 7]);
    let d = i64_tensor(&[2], &[2, -2]);
    let r = Tensor::elementwise_i64(&c, &d, ArithOp::Div).unwrap();
    assert_eq!(r.iter_i64(), vec![-3, -3]);
}

#[test]
fn elementwise_errors() {
    let a = i64_tensor(&[2], &[1, 2]);
    let f = f32_tensor(&[2], &[1.0, 2.0]);
    assert_eq!(Tensor::elementwise_i64(&a, &f, ArithOp::Add), Err(TensorError::ElementTypeMismatch));
    let b = i64_tensor(&[3], &[1, 2, 3]);
    assert_eq!(Tensor::elementwise_i64(&a, &b, ArithOp::Mul), Err(TensorError::IncompatibleDimensions));
}

#[test]
fn sizes_that_fit() {

    assert!(fits_len(ElementType::F32, &[2, 3]));
    assert!(fits_len(ElementType::I64, &[]));
    assert!(!fits_len(ElementType::I64, &[usize::MAX, 2]));
    assert!(!fits_len(ElementType::I64, &[usize::MAX / 4]));
    // A zero dimension does not excuse an earlier overflow.
    assert!(!fits_len(ElementType::F32, &[usize::MAX, 2, 0]));
}
