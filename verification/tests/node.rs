use wdn::node::{
    DimData, NodeAttribute, NodeData, TensorData, TypeData, ValueInfoData, DATA_TYPE_FLOAT,
    DATA_TYPE_INT64, F32_ONE_BITS,
};
use wdn::node::{node_value_fits, tensor_fits, value_info_fits};
use wdn::op::{OpError, Operation};
use wdn::tensor::{ElementType, Tensor, TensorError, TensorType};

fn tensor_data(data_type: i32, dims: &[i64], raw: &[u8]) -> TensorData {
    TensorData {
        name: "t".to_string(),
        data_type,
        dims: dims.to_vec(),
        raw_data: raw.to_vec(),
        segmented: false,
        external: false,
    }
}

fn attr(name: &str, f: u32, i: i64, t: Option<TensorData>) -> NodeAttribute {
    NodeAttribute {
        name: name.to_string(),
        f,
        i,
        t,
    }
}

fn node(op_type: &str, attribute: Vec<NodeAttribute>) -> NodeData {
    NodeData {
        name: "n".to_string(),
        op_type: op_type.to_string(),
        input: vec![],
        output: vec![],
        attribute,
    }
}

#[test]
fn element_type_codes() {
    assert_eq!(ElementType::from_proto(DATA_TYPE_FLOAT), Ok(ElementType::F32));
    assert_eq!(ElementType::from_proto(DATA_TYPE_INT64), Ok(ElementType::I64));
    assert_eq!(ElementType::from_proto(2), Err(OpError::UnsupportedElementType));
}

#[test]
fn tensors_from_data() {
    let t = Tensor::from_proto(&tensor_data(DATA_TYPE_INT64, &[2], &[1, 0, 0, 0, 0, 0, 0, 0, 2, 0, 0, 0, 0, 0, 0, 0]))
        .unwrap();
    assert_eq!(t.shape(), &[2]);
    assert_eq!(t.iter_i64(), vec![1, 2]);
    assert_eq!(
        Tensor::from_proto(&tensor_data(DATA_TYPE_INT64, &[2], &[])),
        Err(OpError::MissingRawData)
    );
    let mut segmented = tensor_data(DATA_TYPE_FLOAT, &[1], &[0, 0, 0, 0]);
    segmented.segmented = true;
    assert_eq!(Tensor::from_proto(&segmented), Err(OpError::SegmentedData));
    let mut external = tensor_data(DATA_TYPE_FLOAT, &[1], &[0, 0, 0, 0]);
    external.external = true;
    assert_eq!(Tensor::from_proto(&external), Err(OpError::ExternalData));
    assert_eq!(
        Tensor::from_proto(&tensor_data(DATA_TYPE_FLOAT, &[-1], &[0, 0, 0, 0])),
        Err(OpError::InvalidDimension)
    );
    assert_eq!(
        Tensor::from_proto(&tensor_data(11, &[1], &[0; 8])),
        Err(OpError::UnsupportedElementType)
    );
    assert_eq!(
        Tensor::from_proto(&tensor_data(DATA_TYPE_FLOAT, &[2], &[0, 0, 0, 0])),
        Err(OpError::Tensor(TensorError::InvalidDataLength))
    );
    let ty = TensorType::from_tensor_proto(&tensor_data(DATA_TYPE_FLOAT, &[3, 0], &[])).unwrap();
    assert_eq!(ty.shape(), &[3, 0]);
    assert_eq!(ty.elem_ty(), ElementType::F32);
}

#[test]
fn value_types() {
    let info = |ty: Option<TypeData>| ValueInfoData {
        name: "x".to_string(),
        ty,
    };
    let t = TensorType::from_value_info_proto(&info(Some(TypeData::Tensor {
        elem_type: DATA_TYPE_FLOAT,
        shape: Some(vec![DimData::Value(1), DimData::Value(4)]),
    })))
    .unwrap();
    assert_eq!(t.shape(), &[1, 4]);
    assert_eq!(t.elem_ty(), ElementType::F32);
    assert_eq!(
        TensorType::from_value_info_proto(&info(None)),
        Err(OpError::MissingType)
    );
    assert_eq!(
        TensorType::from_value_info_proto(&info(Some(TypeData::Unset))),
        Err(OpError::MissingType)
    );
    assert_eq!(
        TensorType::from_value_info_proto(&info(Some(TypeData::Other))),
        Err(OpError::UnsupportedType)
    );
    assert_eq!(
        TensorType::from_value_info_proto(&info(Some(TypeData::Tensor {
            elem_type: DATA_TYPE_INT64,
            shape: None,
        }))),
        Err(OpError::MissingShape)
    );
    assert_eq!(
        TensorType::from_value_info_proto(&info(Some(TypeData::Tensor {
            elem_type: DATA_TYPE_INT64,
            shape: Some(vec![DimData::Param("batch".to_string())]),
        }))),
        Err(OpError::InvalidDimension)
    );
    assert_eq!(
        TensorType::from_value_info_proto(&info(Some(TypeData::Tensor {
            elem_type: 3,
            shape: Some(vec![]),
        }))),
        Err(OpError::UnsupportedElementType)
    );
}

#[test]
fn operations_from_nodes() {
    match Operation::from_proto(&node("Gemm", vec![attr("transB", 0, 1, None), attr("alpha", 0x4000_0000, 0, None)])) {
        Ok(Operation::Gemm { alpha, beta, trans_a, trans_b }) => {
            assert_eq!(f32::from_bits(alpha), 2.0);
            assert_eq!(beta, F32_ONE_BITS);
            assert!(!trans_a);
            assert!(trans_b);
        }
        other => panic!("unexpected {other:?}"),
    }
    assert!(matches!(Operation::from_proto(&node("Relu", vec![])), Ok(Operation::Relu)));
    assert!(matches!(Operation::from_proto(&node("Tanh", vec![])), Ok(Operation::Tanh)));
    assert!(matches!(
        Operation::from_proto(&node("Gather", vec![attr("axis", 0, -1, None)])),
        Ok(Operation::Gather { axis: -1 })
    ));
    assert!(matches!(
        Operation::from_proto(&node("Gather", vec![])),
        Ok(Operation::Gather { axis: 0 })
    ));
    assert!(matches!(
        Operation::from_proto(&node("Concat", vec![attr("axis", 0, 1, None)])),
        Ok(Operation::Concat { axis: 1 })
    ));
    assert_eq!(
        Operation::from_proto(&node("Concat", vec![])).unwrap_err(),
        OpError::MissingAttribute
    );
    // The bounds of a Shape are both read from `transB`.
    assert!(matches!(
        Operation::from_proto(&node("Shape", vec![attr("transB", 0, 2, None), attr("transB", 0, 5, None)])),
        Ok(Operation::Shape { start: 2, end: Some(2) })
    ));
    assert!(matches!(
        Operation::from_proto(&node("Shape", vec![attr("start", 0, 1, None)])),
        Ok(Operation::Shape { start: 0, end: None })
    ));
    for (name, expected) in [("Add", "Add"), ("Div", "Div"), ("Max", "Max"), ("Min", "Min"), ("Mul", "Mul"), ("Slice", "Slice")] {
        let op = Operation::from_proto(&node(name, vec![])).unwrap();
        assert_eq!(format!("{op:?}"), expected);
    }
    assert_eq!(
        Operation::from_proto(&node("Conv", vec![])).unwrap_err(),
        OpError::UnsupportedOperation
    );
}

#[test]
fn constants_from_nodes() {
    let value = tensor_data(DATA_TYPE_FLOAT, &[1], &2.5f32.to_le_bytes());
    match Operation::from_proto(&node("Constant", vec![attr("value", 0, 0, Some(value))])) {
        Ok(Operation::Constant { value }) => {
            assert_eq!(value.shape(), &[1]);
            assert_eq!(value.as_bytes(), &2.5f32.to_le_bytes());
        }
        other => panic!("unexpected {other:?}"),
    }
    assert_eq!(
        Operation::from_proto(&node("Constant", vec![attr("value", 0, 0, None)])).unwrap_err(),
        OpError::UnsupportedConstant
    );
    assert_eq!(
        Operation::from_proto(&node("Constant", vec![])).unwrap_err(),
        OpError::UnsupportedConstant
    );
    assert_eq!(
        Operation::from_proto(&node(
            "Constant",
            vec![attr("value", 0, 0, Some(tensor_data(DATA_TYPE_FLOAT, &[1], &[])))]
        ))
        .unwrap_err(),
        OpError::MissingRawData
    );
}

#[test]
fn sizes_that_fit_are_recognised() {
    assert!(tensor_fits(&tensor_data(DATA_TYPE_INT64, &[2, 3], &[])));
    assert!(!tensor_fits(&tensor_data(DATA_TYPE_INT64, &[i64::MAX, i64::MAX], &[])));
    assert!(!tensor_fits(&tensor_data(DATA_TYPE_FLOAT, &[1 << 62], &[])));
    // Negative dimensions and unknown element types are refused later, not here.
    assert!(tensor_fits(&tensor_data(DATA_TYPE_FLOAT, &[-1, i64::MAX], &[])));
    assert!(tensor_fits(&tensor_data(2, &[i64::MAX, i64::MAX], &[])));
    let info = ValueInfoData {
        name: "v".to_string(),
        ty: Some(TypeData::Tensor {
            elem_type: DATA_TYPE_FLOAT,
            shape: Some(vec![DimData::Value(3), DimData::Unset]),
        }),
    };
    assert!(value_info_fits(&info));
    let big = tensor_data(DATA_TYPE_INT64, &[i64::MAX, 4], &[]);
    assert!(!node_value_fits(&node("Constant", vec![attr("value", 0, 0, Some(big))])));
    assert!(node_value_fits(&node("Relu", vec![])));
}
