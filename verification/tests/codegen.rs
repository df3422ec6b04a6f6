use wdn::codegen::{
    broadcast_indices, concat_offsets, concat_source, gemm_layout, ident_name, is_static,
    slice_source, slice_starts, GemmLayout, GenError, Generator, GraphData, Stmt,
};
use wdn::node::{
    DimData, NodeAttribute, NodeData, TensorData, TypeData, ValueInfoData, DATA_TYPE_FLOAT,
};
use wdn::op::{OpError, Var};
use wdn::tensor::{ArithOp, ElementType, Tensor, TensorType};

fn f32_bytes(values: &[f32]) -> Vec<u8> {
    values.iter().flat_map(|v| v.to_le_bytes()).collect()
}

fn value_info(name: &str, shape: &[i64]) -> ValueInfoData {
    ValueInfoData {
        name: name.to_string(),
        ty: Some(TypeData::Tensor {
            elem_type: DATA_TYPE_FLOAT,
            shape: Some(shape.iter().map(|&d| DimData::Value(d)).collect()),
        }),
    }
}

fn constant(name: &str, shape: &[i64], values: &[f32]) -> TensorData {
    TensorData {
        name: name.to_string(),
        data_type: DATA_TYPE_FLOAT,
        dims: shape.to_vec(),
        raw_data: f32_bytes(values),
        segmented: false,
        external: false,
    }
}

fn node(name: &str, op_type: &str, input: &[&str], output: &[&str]) -> NodeData {
    NodeData {
        name: name.to_string(),
        op_type: op_type.to_string(),
        input: input.iter().map(|s| s.to_string()).collect(),
        output: output.iter().map(|s| s.to_string()).collect(),
        attribute: Vec::<NodeAttribute>::new(),
    }
}

fn describe(stmts: &[Stmt]) -> Vec<String> {
    stmts
        .iter()
        .map(|s| match s {
            Stmt::Constant(name) => format!("const {name}"),
            Stmt::Let { node, bindings } => format!("let {node} {bindings:?}"),
        })
        .collect()
}

fn small_graph() -> GraphData {
    GraphData {
        name: "policy".to_string(),
        input: vec![value_info("x", &[1, 3])],
        initializer: vec![
            constant("w", &[3, 2], &[1.0, 2.0, 3.0, 4.0, 5.0, 6.0]),
            constant("b", &[1, 2], &[0.5, -0.5]),
            constant("unused", &[1], &[7.0]),
        ],
        node: vec![
            node("gemm", "Gemm", &["x", "w", "b"], &["y"]),
            node("relu", "Relu", &["y"], &["z"]),
            node("dead", "Tanh", &["y"], &["d"]),
        ],
        output: vec![value_info("z", &[1, 2])],
    }
}

fn build(graph: &GraphData) -> Generator {
    let mut g = Generator::new();
    for input in &graph.input {
        g.add_input(input).unwrap();
    }
    for init in &graph.initializer {
        g.add_constant(init).unwrap();
    }
    for n in &graph.node {
        assert!(g.add_node(n).unwrap().is_none());
    }
    g
}

#[test]
fn graph_values_by_name() {
    let graph = small_graph();
    let g = build(&graph);
    match g.var("y") {
        Some(Var::Input(t)) => assert_eq!(t.shape(), &[1, 2]),
        other => panic!("unexpected {other:?}"),
    }
    assert!(matches!(g.var("w"), Some(Var::Const(_))));
    assert!(g.var("nothing").is_none());
    assert!(g.operation("relu").is_some());
    assert!(g.operation("y").is_none());
}

#[test]
fn plan_computes_outputs_backward() {
    let graph = small_graph();
    let g = build(&graph);
    let stmts = g.plan(&graph).unwrap();
    assert_eq!(
        describe(&stmts),
        vec![
            "const w".to_string(),
            "const b".to_string(),
            "let 0 [Some(\"y\")]".to_string(),
            "let 1 [Some(\"z\")]".to_string(),
        ]
    );
}

#[test]
fn plan_refuses_outputs_without_inputs() {
    let mut graph = small_graph();
    graph.input.clear();
    let mut g = Generator::new();
    g.add_var("x", Var::Input(TensorType::new(ElementType::F32, vec![1, 3])))
        .unwrap();
    for init in &graph.initializer {
        g.add_constant(init).unwrap();
    }
    for n in &graph.node {
        g.add_node(n).unwrap();
    }
    assert_eq!(g.plan(&graph).unwrap_err(), GenError::UnfulfilledOutputs);
}

#[test]
fn values_and_nodes_are_named_once() {
    let mut g = Generator::new();
    let t = || Var::Input(TensorType::new(ElementType::F32, vec![2]));
    assert_eq!(g.add_var("", t()), Err(GenError::EmptyName));
    assert_eq!(g.add_var("a", t()), Ok(()));
    assert_eq!(g.add_var("a", t()), Err(GenError::DuplicateVar));
    assert_eq!(
        g.add_node(&node("n", "Relu", &["missing"], &["o"])).unwrap_err(),
        GenError::InputNotFound
    );
    assert!(g.add_node(&node("n", "Relu", &["a"], &["o"])).unwrap().is_none());
    assert_eq!(
        g.add_node(&node("n", "Relu", &["a"], &["p"])).unwrap_err(),
        GenError::DuplicateNode
    );
    assert_eq!(
        g.add_node(&node("m", "Relu", &["a"], &["o"])).unwrap_err(),
        GenError::DuplicateVar
    );
    assert_eq!(
        g.add_node(&node("k", "Relu", &["a"], &["q", "r"])).unwrap_err(),
        GenError::OutputCountMismatch
    );
    assert_eq!(
        g.add_node(&node("u", "Conv", &["a"], &["s"])).unwrap_err(),
        GenError::Op(OpError::UnsupportedOperation)
    );
    assert_eq!(
        g.add_node(&node("v", "Relu", &["a", "a"], &["s"])).unwrap_err(),
        GenError::Op(OpError::InvalidInputCount)
    );
}

#[test]
fn f32_folds_are_handed_back() {
    let mut g = Generator::new();
    g.add_constant(&constant("a", &[2], &[1.0, 2.0])).unwrap();
    g.add_constant(&constant("b", &[2], &[3.0, 4.0])).unwrap();
    let n = node("sum", "Add", &["a", "b"], &["c"]);
    let fold = g.add_node(&n).unwrap().unwrap();
    assert_eq!(fold.op, ArithOp::Add);
    assert_eq!(fold.a.as_bytes(), &f32_bytes(&[1.0, 2.0])[..]);
    let sum = Tensor::new(
        TensorType::new(ElementType::F32, vec![2]),
        f32_bytes(&[4.0, 6.0]),
    )
    .unwrap();
    g.finish_node(&n, fold.operation, vec![Var::Const(sum)]).unwrap();
    assert!(matches!(g.var("c"), Some(Var::Const(_))));
    assert!(g.operation("sum").is_some());
}

#[test]
fn identifiers() {
    assert_eq!(ident_name("3a.b-c"), "_3a_b_c");
    assert_eq!(ident_name("input"), "input");
    assert_eq!(ident_name("/layer/Gemm_output_0"), "_layer_Gemm_output_0");
}

#[test]
fn broadcast_index_paths() {
    let ty = TensorType::new(ElementType::F32, vec![1, 3]);
    assert_eq!(broadcast_indices(&ty, &[2, 0, 2]), vec![0, 2]);
    assert_eq!(broadcast_indices(&ty, &[1]), vec![1]);
    let scalar = TensorType::new(ElementType::F32, vec![]);
    assert!(broadcast_indices(&scalar, &[4, 5]).is_empty());
}

#[test]
fn concat_positions() {
    assert_eq!(concat_offsets(&[3, 0, 2]), vec![0, 3, 3]);
    assert_eq!(concat_source(&[0, 3, 5], 3), (1, 0));
    assert_eq!(concat_source(&[0, 3, 5], 2), (0, 2));
    assert_eq!(concat_source(&[0, 3, 5], 7), (2, 2));
}

#[test]
fn slice_start_indices() {
    let starts = Tensor::from_iter_i64(TensorType::new(ElementType::I64, vec![2]), &[-2, 1]);
    let axes = Tensor::from_iter_i64(TensorType::new(ElementType::I64, vec![2]), &[1, 0]);
    assert_eq!(slice_starts(&[5, 6], &starts, &axes), vec![1, 4]);
}

#[test]
fn gemm_layouts() {
    assert_eq!(
        gemm_layout(&[2, 3], &[3, 4], false, false),
        GemmLayout {
            m: 2,
            k: 3,
            n: 4,
            rsa: 3,
            csa: 1,
            rsb: 4,
            csb: 1,
            rsc: 1,
            csc: 2
        }
    );
    assert_eq!(
        gemm_layout(&[3, 2], &[4, 3], true, true),
        GemmLayout {
            m: 2,
            k: 3,
            n: 4,
            rsa: 1,
            csa: 2,
            rsb: 1,
            csb: 3,
            rsc: 1,
            csc: 2
        }
    );
}

#[test]
fn static_constants() {
    let three = Tensor::new(TensorType::new(ElementType::F32, vec![3]), f32_bytes(&[1.0, 2.0, 3.0])).unwrap();
    let two = Tensor::new(TensorType::new(ElementType::F32, vec![2]), f32_bytes(&[1.0, 2.0])).unwrap();
    assert!(is_static(&three));
    assert!(!is_static(&two));
}

#[test]
fn graph_definitions_are_checked() {
    let graph = small_graph();
    let g = build(&graph);
    assert!(g.defines_graph(&graph));
    let mut other = small_graph();
    other.node.push(node("late", "Relu", &["z"], &["late_out"]));
    assert!(!g.defines_graph(&other));
    let mut other = small_graph();
    other.initializer.push(constant("missing", &[1], &[1.0]));
    assert!(!g.defines_graph(&other));
    assert!(Generator::new().defines_graph(&GraphData {
        name: "empty".to_string(),
        input: vec![],
        initializer: vec![],
        node: vec![],
        output: vec![],
    }));
}

#[test]
fn slice_sources_add_the_starts() {
    assert_eq!(slice_source(&[1, 2, 3], &[10, 20]), Some(vec![11, 22]));
    assert_eq!(slice_source(&[], &[4]), Some(vec![]));
    assert_eq!(slice_source(&[usize::MAX], &[1]), None);
}
