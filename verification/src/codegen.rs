//! The compilation of an ONNX graph into a Rust function: the values of the
//! graph by name, the nodes added in order, and the plan of the statements
//! that compute the graph's outputs from its inputs.
use crate::node::{
    node_in_bounds, node_operation, tensor_in_bounds, tensor_read, value_info_in_bounds,
    value_type_read, NodeData, TensorData, ValueInfoData,
};
use crate::op::{
    applied, apply_in_bounds, same_tensor, same_var, vector_element, Applied, OpError, Operation, Var,
};
use crate::tensor::{wrap_index, wrapped_index, ElementType, TensorType};
use crate::tensor::{ArithOp, Tensor};
use vstd::prelude::*;

verus! {

/// Why a graph is refused.
#[derive(Debug, PartialEq, Eq, Structural)]
pub enum GenError {
    /// A value has an empty name.
    EmptyName,
    /// Two values have the same name.
    DuplicateVar,
    /// Two nodes have the same name.
    DuplicateNode,
    /// A node reads a value that is not defined before it.
    InputNotFound,
    /// An operation gives another number of outputs than its node names.
    OutputCountMismatch,
    /// An output of the graph is computed from no input.
    UnfulfilledOutputs,
    /// A node, tensor or value type is refused.
    Op(OpError),
}

/// An `f32` fold that a node asks for: the constant that `op` gives on
/// `a` and `b` is the single output of `operation`.
#[derive(Debug)]
pub struct Fold {
    pub op: ArithOp,
    pub a: Tensor,
    pub b: Tensor,
    pub operation: Operation,
}

/// The values and operations of a graph, by name.
pub struct Generator {
    vars: Vec<(String, Var)>,
    operations: Vec<(String, Operation)>,
}

/// The map of an association list whose keys are distinct.
pub open spec fn assoc_map<V>(entries: Seq<(String, V)>) -> Map<Seq<char>, V>
    decreases entries.len(),
{
    if entries.len() == 0 {
        Map::empty()
    } else {
        assoc_map(entries.drop_last()).insert(entries.last().0@, entries.last().1)
    }
}

/// Whether no key of an association list appears twice.
pub open spec fn distinct_keys<V>(entries: Seq<(String, V)>) -> bool {
    forall|i: int, j: int|
        0 <= i < j < entries.len() ==> #[trigger] entries[i].0@ != #[trigger] entries[j].0@
}

proof fn lemma_assoc_map_contains<V>(entries: Seq<(String, V)>, k: int)
    requires
        0 <= k < entries.len(),
        distinct_keys(entries),
    ensures
        assoc_map(entries).contains_key(entries[k].0@),
        assoc_map(entries)[entries[k].0@] == entries[k].1,
    decreases entries.len(),
{
    if k < entries.len() - 1 {
        lemma_assoc_map_contains(entries.drop_last(), k);
    }
}

proof fn lemma_assoc_map_absent<V>(entries: Seq<(String, V)>, key: Seq<char>)
    requires
        forall|i: int| 0 <= i < entries.len() ==> #[trigger] entries[i].0@ != key,
    ensures
        !assoc_map(entries).contains_key(key),
    decreases entries.len(),
{
    if entries.len() > 0 {
        lemma_assoc_map_absent(entries.drop_last(), key);
    }
}

proof fn lemma_assoc_map_set<V>(entries: Seq<(String, V)>, k: int, entry: (String, V))
    requires
        0 <= k < entries.len(),
        distinct_keys(entries),
        entry.0@ == entries[k].0@,
    ensures
        distinct_keys(entries.update(k, entry)),
        assoc_map(entries.update(k, entry)) == assoc_map(entries).insert(entry.0@, entry.1),
    decreases entries.len(),
{
    let updated = entries.update(k, entry);
    if k == entries.len() - 1 {
        assert(updated.drop_last() =~= entries.drop_last());
        assert(assoc_map(entries) =~= assoc_map(entries.drop_last()).insert(entries.last().0@, entries.last().1));
        assert(assoc_map(updated) =~= assoc_map(entries).insert(entry.0@, entry.1));
    } else {
        lemma_assoc_map_set(entries.drop_last(), k, entry);
        assert(updated.drop_last() =~= entries.drop_last().update(k, entry));
        assert(assoc_map(updated) =~= assoc_map(entries).insert(entry.0@, entry.1));
    }
}

/// The position of `key` in an association list.
fn find_key<V>(entries: &Vec<(String, V)>, key: &String) -> (r: Option<usize>)
    requires
        distinct_keys(entries@),
    ensures
        match r {
            Some(k) => k < entries@.len() && entries@[k as int].0@ == key@ && assoc_map(
                entries@,
            ).contains_key(key@) && assoc_map(entries@)[key@] == entries@[k as int].1,
            None => !assoc_map(entries@).contains_key(key@),
        },
{
    let mut k: usize = 0;
    while k < entries.len()
        invariant
            k <= entries@.len(),
            distinct_keys(entries@),
            forall|i: int| 0 <= i < k ==> #[trigger] entries@[i].0@ != key@,
        decreases entries@.len() - k,
    {
        if entries[k].0 == *key {
            proof {
                lemma_assoc_map_contains(entries@, k as int);
            }
            return Some(k);
        }
        k = k + 1;
    }
    proof {
        lemma_assoc_map_absent(entries@, key@);
    }
    None
}

/// Sets `key` to `value` in an association list; whether the key was there.
fn assoc_insert<V>(entries: &mut Vec<(String, V)>, key: String, value: V) -> (r: bool)
    requires
        distinct_keys(old(entries)@),
    ensures
        distinct_keys(final(entries)@),
        assoc_map(final(entries)@) == assoc_map(old(entries)@).insert(key@, value),
        r == assoc_map(old(entries)@).contains_key(key@),
{
    match find_key(entries, &key) {
        Some(k) => {
            proof {
                lemma_assoc_map_set(entries@, k as int, (key, value));
            }
            entries.set(k, (key, value));
            true
        },
        None => {
            let ghost old_entries = entries@;
            let ghost key_view = key@;
            entries.push((key, value));
            assert(entries@.drop_last() =~= old_entries);
            assert(forall|i: int| 0 <= i < old_entries.len() ==> #[trigger] old_entries[i].0@ != key_view) by {
                assert forall|i: int| 0 <= i < old_entries.len() implies #[trigger] old_entries[i].0@ != key_view by {
                    if old_entries[i].0@ == key_view {
                        lemma_assoc_map_contains(old_entries, i);
                    }
                }
            }
            false
        },
    }
}

/// What adding the value `var` under `name` to the values `vars` gives: the
/// values after, and whether the addition is refused. An empty name is
/// refused with the values unchanged; otherwise the name is set to the
/// value, and refused if it was there.
pub open spec fn var_added(vars: Map<Seq<char>, Var>, name: Seq<char>, var: Var) -> (
    Map<Seq<char>, Var>,
    Result<(), GenError>,
) {
    if name.len() == 0 {
        (vars, Err(GenError::EmptyName))
    } else {
        (
            vars.insert(name, var),
            if vars.contains_key(name) {
                Err(GenError::DuplicateVar)
            } else {
                Ok(())
            },
        )
    }
}

/// What adding the first `n` of `vals` under the first `n` of `names` gives,
/// one after the other, up to the first refusal.
pub open spec fn vars_added(vars: Map<Seq<char>, Var>, names: Seq<String>, vals: Seq<Var>, n: nat) -> (
    Map<Seq<char>, Var>,
    Result<(), GenError>,
)
    decreases n,
{
    if n == 0 {
        (vars, Ok(()))
    } else {
        let (m, r) = vars_added(vars, names, vals, (n - 1) as nat);
        if r is Err {
            (m, r)
        } else {
            var_added(m, names[n - 1]@, vals[n - 1])
        }
    }
}

/// Whether `xs` are, in order, values like those that `names` name.
pub open spec fn inputs_like(xs: Seq<Var>, vars: Map<Seq<char>, Var>, names: Seq<String>) -> bool {
    &&& xs.len() == names.len()
    &&& forall|i: int|
        0 <= i < xs.len() ==> vars.contains_key(#[trigger] names[i]@) && same_var(xs[i], vars[names[i]@])
}

/// Whether every one of `names` names a value.
pub open spec fn inputs_defined(vars: Map<Seq<char>, Var>, names: Seq<String>) -> bool {
    forall|i: int| 0 <= i < names.len() ==> vars.contains_key(#[trigger] names[i]@)
}

/// What finishing `node` with the operation `op` and its `outputs` gives,
/// from the values `vars` and the operations `ops`: the values and
/// operations after, and whether it is refused. The outputs must be as many
/// as the node names; each is added under its name in turn; then the
/// operation is set under the node's name, refused if it was there.
pub open spec fn node_finished(
    vars: Map<Seq<char>, Var>,
    ops: Map<Seq<char>, Operation>,
    node: NodeData,
    op: Operation,
    outputs: Seq<Var>,
) -> (Map<Seq<char>, Var>, Map<Seq<char>, Operation>, Result<(), GenError>) {
    if outputs.len() != node.output@.len() {
        (vars, ops, Err(GenError::OutputCountMismatch))
    } else {
        let (m, r) = vars_added(vars, node.output@, outputs, outputs.len());
        if r is Err {
            (m, ops, r)
        } else {
            (
                m,
                ops.insert(node.name@, op),
                if ops.contains_key(node.name@) {
                    Err(GenError::DuplicateNode)
                } else {
                    Ok(())
                },
            )
        }
    }
}

/// Whether `node` can be added to a graph of the values `vars`: its
/// constant can be read, and its operation stays within bounds on any
/// inputs like those it names.
pub open spec fn node_fits(vars: Map<Seq<char>, Var>, node: NodeData) -> bool {
    &&& node_in_bounds(node)
    &&& forall|op: Operation, xs: Seq<Var>|
        node_operation(node, Ok(op)) && inputs_like(xs, vars, node.input@) ==> #[trigger] apply_in_bounds(
            op,
            xs,
        )
}

/// What one node gives once its operation is read and applied to the
/// inputs `xs`, from the values `vars` and operations `ops` to `vars2` and
/// `ops2`: a refusal of the operation, the fold it asks for, or its outputs
/// added as [`node_finished`] says.
pub open spec fn step_result(
    vars: Map<Seq<char>, Var>,
    ops: Map<Seq<char>, Operation>,
    node: NodeData,
    op: Operation,
    a: Result<Applied, OpError>,
    vars2: Map<Seq<char>, Var>,
    ops2: Map<Seq<char>, Operation>,
    r: Result<Option<Fold>, GenError>,
) -> bool {
    match a {
        Err(e) => r == Err::<Option<Fold>, GenError>(GenError::Op(e)) && vars2 == vars && ops2 == ops,
        Ok(Applied::FoldF32 { op: o, a: x, b: y }) => {
            &&& r matches Ok(Some(f))
            &&& f.op == o
            &&& same_tensor(f.a, x)
            &&& same_tensor(f.b, y)
            &&& f.operation == op
            &&& vars2 == vars
            &&& ops2 == ops
        },
        Ok(Applied::Outputs(v)) => {
            let (m, o, rr) = node_finished(vars, ops, node, op, v@);
            &&& vars2 == m
            &&& ops2 == o
            &&& match rr {
                Ok(()) => r == Ok::<Option<Fold>, GenError>(None),
                Err(e) => r == Err::<Option<Fold>, GenError>(e),
            }
        },
    }
}

/// What adding `node` gives, from the values `vars` and operations `ops` to
/// `vars2` and `ops2`: the inputs it names must be defined; then its
/// operation is read and applied to them.
pub open spec fn added_node(
    vars: Map<Seq<char>, Var>,
    ops: Map<Seq<char>, Operation>,
    node: NodeData,
    vars2: Map<Seq<char>, Var>,
    ops2: Map<Seq<char>, Operation>,
    r: Result<Option<Fold>, GenError>,
) -> bool {
    if !inputs_defined(vars, node.input@) {
        r == Err::<Option<Fold>, GenError>(GenError::InputNotFound) && vars2 == vars && ops2 == ops
    } else {
        exists|res: Result<Operation, OpError>|
            #[trigger] node_operation(node, res) && match res {
                Err(e) => r == Err::<Option<Fold>, GenError>(GenError::Op(e)) && vars2 == vars && ops2
                    == ops,
                Ok(op) => exists|xs: Seq<Var>, a: Result<Applied, OpError>|
                    inputs_like(xs, vars, node.input@) && #[trigger] applied(op, xs, a) && step_result(
                        vars,
                        ops,
                        node,
                        op,
                        a,
                        vars2,
                        ops2,
                        r,
                    ),
            }
    }
}

impl Generator {
    /// No value and no node is named twice.
    pub closed spec fn wf(self) -> bool {
        distinct_keys(self.vars@) && distinct_keys(self.operations@)
    }

    /// The values of the graph by name.
    pub closed spec fn vars_view(self) -> Map<Seq<char>, Var> {
        assoc_map(self.vars@)
    }

    /// The operations of the nodes by name.
    pub closed spec fn operations_view(self) -> Map<Seq<char>, Operation> {
        assoc_map(self.operations@)
    }

    pub fn new() -> (r: Generator)
        ensures
            r.wf(),
            r.vars_view() == Map::<Seq<char>, Var>::empty(),
            r.operations_view() == Map::<Seq<char>, Operation>::empty(),
    {
        Generator { vars: Vec::new(), operations: Vec::new() }
    }

    /// The value named `name`.
    pub fn var(&self, name: &str) -> (r: Option<&Var>)
        requires
            self.wf(),
        ensures
            match r {
                Some(v) => self.vars_view().contains_key(name@) && self.vars_view()[name@] == *v,
                None => !self.vars_view().contains_key(name@),
            },
    {
        let key = String::from_str(name);
        match find_key(&self.vars, &key) {
            Some(k) => Some(&self.vars[k].1),
            None => None,
        }
    }

    /// The operation of the node named `name`.
    pub fn operation(&self, name: &str) -> (r: Option<&Operation>)
        requires
            self.wf(),
        ensures
            match r {
                Some(op) => self.operations_view().contains_key(name@)
                    && self.operations_view()[name@] == *op,
                None => !self.operations_view().contains_key(name@),
            },
    {
        let key = String::from_str(name);
        match find_key(&self.operations, &key) {
            Some(k) => Some(&self.operations[k].1),
            None => None,
        }
    }

    /// Adds the value `var` under `name`.
    pub fn add_var(&mut self, name: &str, var: Var) -> (r: Result<(), GenError>)
        requires
            old(self).wf(),
        ensures
            final(self).wf(),
            (final(self).vars_view(), r) == var_added(old(self).vars_view(), name@, var),
            final(self).operations_view() == old(self).operations_view(),
    {
        if name.unicode_len() == 0 {
            return Err(GenError::EmptyName);
        }
        if assoc_insert(&mut self.vars, String::from_str(name), var) {
            Err(GenError::DuplicateVar)
        } else {
            Ok(())
        }
    }

    /// Adds an input of the graph, of the type it is given.
    pub fn add_input(&mut self, value_info: &ValueInfoData) -> (r: Result<(), GenError>)
        requires
            old(self).wf(),
            value_info_in_bounds(*value_info),
        ensures
            final(self).wf(),
            final(self).operations_view() == old(self).operations_view(),
            match r {
                Err(GenError::Op(e)) => value_type_read(*value_info, Err(e)) && final(self).vars_view()
                    == old(self).vars_view(),
                _ => exists|t: TensorType|
                    value_type_read(*value_info, Ok(t)) && (final(self).vars_view(), r) == var_added(
                        old(self).vars_view(),
                        value_info.name@,
                        Var::Input(t),
                    ),
            },
    {
        match TensorType::from_value_info_proto(value_info) {
            Ok(t) => self.add_var(value_info.name.as_str(), Var::Input(t)),
            Err(e) => Err(GenError::Op(e)),
        }
    }

    /// Adds a constant of the graph.
    pub fn add_constant(&mut self, tensor: &TensorData) -> (r: Result<(), GenError>)
        requires
            old(self).wf(),
            tensor_in_bounds(*tensor),
        ensures
            final(self).wf(),
            final(self).operations_view() == old(self).operations_view(),
            match r {
                Err(GenError::Op(e)) => tensor_read(*tensor, Err(e)) && final(self).vars_view()
                    == old(self).vars_view(),
                _ => exists|t: Tensor|
                    tensor_read(*tensor, Ok(t)) && (final(self).vars_view(), r) == var_added(
                        old(self).vars_view(),
                        tensor.name@,
                        Var::Const(t),
                    ),
            },
    {
        match Tensor::from_proto(tensor) {
            Ok(t) => self.add_var(tensor.name.as_str(), Var::Const(t)),
            Err(e) => Err(GenError::Op(e)),
        }
    }

    /// The values that the node reads, in order.
    fn node_inputs(&self, node: &NodeData) -> (r: Result<Vec<Var>, GenError>)
        requires
            self.wf(),
        ensures
            match r {
                Ok(xs) => inputs_like(xs@, self.vars_view(), node.input@),
                Err(e) => e == GenError::InputNotFound && !inputs_defined(
                    self.vars_view(),
                    node.input@,
                ),
            },
    {
        let mut xs: Vec<Var> = Vec::new();
        let mut i: usize = 0;
        while i < node.input.len()
            invariant
                self.wf(),
                i <= node.input@.len(),
                xs@.len() == i,
                forall|j: int|
                    0 <= j < i ==> self.vars_view().contains_key(#[trigger] node.input@[j]@)
                        && same_var(xs@[j], self.vars_view()[node.input@[j]@]),
            decreases node.input@.len() - i,
        {
            match self.var(node.input[i].as_str()) {
                Some(v) => {
                    xs.push(v.clone());
                },
                None => {
                    return Err(GenError::InputNotFound);
                },
            }
            i = i + 1;
        }
        Ok(xs)
    }

    /// Adds the outputs and the operation of a node whose operation gave
    /// `outputs`.
    pub fn finish_node(&mut self, node: &NodeData, op: Operation, outputs: Vec<Var>) -> (r: Result<
        (),
        GenError,
    >)
        requires
            old(self).wf(),
        ensures
            final(self).wf(),
            (final(self).vars_view(), final(self).operations_view(), r) == node_finished(
                old(self).vars_view(),
                old(self).operations_view(),
                *node,
                op,
                outputs@,
            ),
    {
        if outputs.len() != node.output.len() {
            return Err(GenError::OutputCountMismatch);
        }
        let ghost vals = outputs@;
        let ghost old_vars = self.vars_view();
        let ghost old_ops = self.operations_view();
        let n = outputs.len();
        let mut rest = outputs;
        let mut i: usize = 0;
        while i < n
            invariant
                self.wf(),
                i <= n,
                n == vals.len(),
                n == node.output@.len(),
                rest@ == vals.subrange(i as int, n as int),
                old_vars == old(self).vars_view(),
                old_ops == old(self).operations_view(),
                vals == outputs@,
                self.operations_view() == old_ops,
                vars_added(old_vars, node.output@, vals, i as nat) == (
                    self.vars_view(),
                    Ok::<(), GenError>(()),
                ),
            decreases n - i,
        {
            let var = rest.remove(0);
            assert(var == vals[i as int]);
            match self.add_var(node.output[i].as_str(), var) {
                Ok(()) => {},
                Err(e) => {
                    proof {
                        lemma_vars_added_err(old_vars, node.output@, vals, (i + 1) as nat, n as nat);
                    }
                    return Err(e);
                },
            }
            assert(rest@ =~= vals.subrange(i + 1, n as int));
            i = i + 1;
        }
        if assoc_insert(&mut self.operations, node.name.clone(), op) {
            Err(GenError::DuplicateNode)
        } else {
            Ok(())
        }
    }
    /// Adds a node: the values it names as inputs must be defined; its
    /// operation, applied to them, gives either its outputs, which are added
    /// with the operation, or an `f32` fold that the caller computes and
    /// hands to [`Generator::finish_node`].
    pub fn add_node(&mut self, node: &NodeData) -> (r: Result<Option<Fold>, GenError>)
        requires
            old(self).wf(),
            node_fits(old(self).vars_view(), *node),
        ensures
            final(self).wf(),
            added_node(
                old(self).vars_view(),
                old(self).operations_view(),
                *node,
                final(self).vars_view(),
                final(self).operations_view(),
                r,
            ),
    {
        let inputs = match self.node_inputs(node) {
            Ok(xs) => xs,
            Err(e) => {
                return Err(e);
            },
        };
        let op = match Operation::from_proto(node) {
            Ok(op) => op,
            Err(e) => {
                return Err(GenError::Op(e));
            },
        };
        assert(apply_in_bounds(op, inputs@));
        let a = op.apply(inputs.as_slice());
        match a {
            Err(e) => Err(GenError::Op(e)),
            Ok(Applied::FoldF32 { op: o, a: x, b: y }) => Ok(
                Some(Fold { op: o, a: x, b: y, operation: op }),
            ),
            Ok(Applied::Outputs(v)) => match self.finish_node(node, op, v) {
                Ok(()) => Ok(None),
                Err(e) => Err(e),
            },
        }
    }
}

// ---------------------------------------------------------------------------
// The plan of the compiled function
// ---------------------------------------------------------------------------

/// An ONNX graph: its inputs, its constants, its nodes in order, and its
/// outputs.
pub struct GraphData {
    pub name: String,
    pub input: Vec<ValueInfoData>,
    pub initializer: Vec<TensorData>,
    pub node: Vec<NodeData>,
    pub output: Vec<ValueInfoData>,
}

/// A statement of the compiled function.
#[derive(Debug)]
pub enum Stmt {
    /// The constant value of this name.
    Constant(String),
    /// The operation of the node at this position of the graph, its outputs
    /// bound to the names given, or to none.
    Let { node: usize, bindings: Vec<Option<String>> },
}

/// A statement as plain values.
pub enum StmtView {
    Constant(Seq<char>),
    Let(nat, Seq<Option<Seq<char>>>),
}

/// A name that may be bound, as plain text.
pub open spec fn binding_view(b: Option<String>) -> Option<Seq<char>> {
    match b {
        Some(s) => Some(s@),
        None => None,
    }
}

/// A statement as plain values.
pub open spec fn stmt_view(s: Stmt) -> StmtView {
    match s {
        Stmt::Constant(name) => StmtView::Constant(name@),
        Stmt::Let { node, bindings } => StmtView::Let(
            node as nat,
            bindings@.map_values(|b: Option<String>| binding_view(b)),
        ),
    }
}

/// The set of the names in `names`.
pub open spec fn name_set(names: Seq<String>) -> Set<Seq<char>> {
    Set::new(|x: Seq<char>| exists|i: int| 0 <= i < names.len() && #[trigger] names[i]@ == x)
}

/// The set of the names of `infos`.
pub open spec fn info_names(infos: Seq<ValueInfoData>) -> Set<Seq<char>> {
    Set::new(|x: Seq<char>| exists|i: int| 0 <= i < infos.len() && #[trigger] infos[i].name@ == x)
}

/// Whether any of `names` is needed.
pub open spec fn any_needed(needed: Set<Seq<char>>, names: Seq<String>) -> bool {
    exists|i: int| 0 <= i < names.len() && needed.contains(#[trigger] names[i]@)
}

/// The constants among the first `n` outputs `outs` of a node that are
/// needed, each emitted once and no longer needed after.
pub open spec fn const_outputs(vars: Map<Seq<char>, Var>, needed: Set<Seq<char>>, outs: Seq<String>, n: nat) -> (
    Set<Seq<char>>,
    Seq<StmtView>,
)
    decreases n,
{
    if n == 0 {
        (needed, Seq::empty())
    } else {
        let (nd, em) = const_outputs(vars, needed, outs, (n - 1) as nat);
        let o = outs[n - 1]@;
        if vars[o] is Const && nd.contains(o) {
            (nd.remove(o), em.push(StmtView::Constant(o)))
        } else {
            (nd, em)
        }
    }
}

/// The bindings of the first `n` outputs `outs` of a node: each needed one
/// is bound to its name and no longer needed after; the others to none.
pub open spec fn bound_outputs(needed: Set<Seq<char>>, outs: Seq<String>, n: nat) -> (
    Set<Seq<char>>,
    Seq<Option<Seq<char>>>,
)
    decreases n,
{
    if n == 0 {
        (needed, Seq::empty())
    } else {
        let (nd, bs) = bound_outputs(needed, outs, (n - 1) as nat);
        let o = outs[n - 1]@;
        if nd.contains(o) {
            (nd.remove(o), bs.push(Some(o)))
        } else {
            (nd, bs.push(None))
        }
    }
}

/// The statements for the node at position `k`, from the last statement of
/// the function backward, and the names needed before it: nothing if none
/// of its outputs is needed; else its needed constant outputs; then, if an
/// output is still needed, the binding of its operation, after which its
/// inputs are needed.
pub open spec fn node_step(vars: Map<Seq<char>, Var>, needed: Set<Seq<char>>, node: NodeData, k: nat) -> (
    Set<Seq<char>>,
    Seq<StmtView>,
) {
    let outs = node.output@;
    if !any_needed(needed, outs) {
        (needed, Seq::empty())
    } else {
        let (n1, consts) = const_outputs(vars, needed, outs, outs.len());
        if !any_needed(n1, outs) {
            (n1, consts)
        } else {
            let (n2, binds) = bound_outputs(n1, outs, outs.len());
            (n2.union(name_set(node.input@)), consts.push(StmtView::Let(k, binds)))
        }
    }
}

/// The statements for the first `k` nodes, taken from the last to the
/// first, from the last statement backward.
pub open spec fn nodes_plan(vars: Map<Seq<char>, Var>, needed: Set<Seq<char>>, nodes: Seq<NodeData>, k: nat) -> (
    Set<Seq<char>>,
    Seq<StmtView>,
)
    decreases k,
{
    if k == 0 {
        (needed, Seq::empty())
    } else {
        let (n1, e1) = node_step(vars, needed, nodes[k - 1], (k - 1) as nat);
        let (n2, e2) = nodes_plan(vars, n1, nodes, (k - 1) as nat);
        (n2, e1 + e2)
    }
}

/// The statements for the first `k` constants of the graph that are
/// needed, taken from the last to the first.
pub open spec fn constants_plan(needed: Set<Seq<char>>, inits: Seq<TensorData>, k: nat) -> (
    Set<Seq<char>>,
    Seq<StmtView>,
)
    decreases k,
{
    if k == 0 {
        (needed, Seq::empty())
    } else {
        let t = inits[k - 1].name@;
        let (n1, e1) = if needed.contains(t) {
            (needed.remove(t), seq![StmtView::Constant(t)])
        } else {
            (needed, Seq::empty())
        };
        let (n2, e2) = constants_plan(n1, inits, (k - 1) as nat);
        (n2, e1 + e2)
    }
}

/// The statements of the function that computes the outputs of `graph`
/// from its inputs, in order, found from its outputs backward: `None` where
/// a needed value is neither computed nor an input.
pub open spec fn graph_plan(vars: Map<Seq<char>, Var>, graph: GraphData) -> Option<Seq<StmtView>> {
    let (n1, e1) = nodes_plan(vars, info_names(graph.output@), graph.node@, graph.node@.len());
    let (n2, e2) = constants_plan(n1, graph.initializer@, graph.initializer@.len());
    if n2.difference(info_names(graph.input@)) == Set::<Seq<char>>::empty() {
        Some((e1 + e2).reverse())
    } else {
        None
    }
}

/// Whether the values of the graph hold every output of its nodes and every
/// one of its constants, as a constant.
pub open spec fn graph_defined(vars: Map<Seq<char>, Var>, graph: GraphData) -> bool {
    &&& forall|k: int, i: int|
        0 <= k < graph.node@.len() && 0 <= i < graph.node@[k].output@.len() ==> vars.contains_key(
            #[trigger] graph.node@[k].output@[i]@,
        )
    &&& forall|k: int|
        0 <= k < graph.initializer@.len() ==> vars.contains_key(#[trigger] graph.initializer@[k].name@)
            && vars[graph.initializer@[k].name@] is Const
}

/// A set of names.
struct NameSet {
    names: Vec<String>,
}

impl NameSet {
    spec fn wf(self) -> bool {
        forall|i: int, j: int|
            0 <= i < j < self.names@.len() ==> #[trigger] self.names@[i]@ != #[trigger] self.names@[j]@
    }

    spec fn view(self) -> Set<Seq<char>> {
        name_set(self.names@)
    }

    fn new() -> (r: NameSet)
        ensures
            r.wf(),
            r@ == Set::<Seq<char>>::empty(),
    {
        let r = NameSet { names: Vec::new() };
        assert(r@ =~= Set::<Seq<char>>::empty());
        r
    }

    fn find(&self, name: &String) -> (r: Option<usize>)
        ensures
            match r {
                Some(i) => i < self.names@.len() && self.names@[i as int]@ == name@,
                None => !self@.contains(name@),
            },
    {
        let mut i: usize = 0;
        while i < self.names.len()
            invariant
                i <= self.names@.len(),
                forall|j: int| 0 <= j < i ==> #[trigger] self.names@[j]@ != name@,
            decreases self.names@.len() - i,
        {
            if self.names[i] == *name {
                return Some(i);
            }
            i = i + 1;
        }
        None
    }

    fn contains(&self, name: &String) -> (r: bool)
        ensures
            r == self@.contains(name@),
    {
        self.find(name).is_some()
    }

    fn insert(&mut self, name: String)
        requires
            old(self).wf(),
        ensures
            final(self).wf(),
            final(self)@ == old(self)@.insert(name@),
    {
        if self.find(&name).is_none() {
            let ghost v = name@;
            let ghost before = self.names@;
            self.names.push(name);
            assert(self@ =~= name_set(before).insert(v)) by {
                assert forall|x: Seq<char>| #[trigger] self@.contains(x) implies name_set(before).insert(
                    v,
                ).contains(x) by {
                    let i = choose|i: int| 0 <= i < self.names@.len() && #[trigger] self.names@[i]@ == x;
                    if i < before.len() {
                        assert(before[i]@ == x);
                    }
                }
                assert forall|x: Seq<char>| #[trigger] name_set(before).insert(v).contains(x) implies self@.contains(
                    x,
                ) by {
                    if x == v {
                        assert(self.names@[before.len() as int]@ == x);
                    } else {
                        let i = choose|i: int| 0 <= i < before.len() && #[trigger] before[i]@ == x;
                        assert(self.names@[i]@ == x);
                    }
                }
            }
        } else {
            assert(self@ =~= old(self)@.insert(name@));
        }
    }

    /// Removes `name`; whether it was there.
    fn remove(&mut self, name: &String) -> (r: bool)
        requires
            old(self).wf(),
        ensures
            final(self).wf(),
            final(self)@ == old(self)@.remove(name@),
            r == old(self)@.contains(name@),
    {
        match self.find(name) {
            Some(i) => {
                let ghost before = self.names@;
                self.names.remove(i);
                assert(self@ =~= name_set(before).remove(name@)) by {
                    assert forall|x: Seq<char>| #[trigger] self@.contains(x) implies name_set(before).remove(
                        name@,
                    ).contains(x) by {
                        let j = choose|j: int| 0 <= j < self.names@.len() && #[trigger] self.names@[j]@ == x;
                        if j < i {
                            assert(before[j]@ == x);
                        } else {
                            assert(before[j + 1]@ == x);
                        }
                    }
                    assert forall|x: Seq<char>| #[trigger] name_set(before).remove(name@).contains(x) implies self@.contains(
                        x,
                    ) by {
                        let j = choose|j: int| 0 <= j < before.len() && #[trigger] before[j]@ == x;
                        if j < i {
                            assert(self.names@[j]@ == x);
                        } else {
                            assert(j != i);
                            assert(self.names@[j - 1]@ == x);
                        }
                    }
                }
                true
            },
            None => {
                assert(self@ =~= old(self)@.remove(name@));
                false
            },
        }
    }
}

/// Statements as plain values.
pub open spec fn stmts_view(v: Seq<Stmt>) -> Seq<StmtView> {
    v.map_values(|s: Stmt| stmt_view(s))
}

/// Whether any of `names` is in `needed`.
fn any_in(needed: &NameSet, names: &Vec<String>) -> (r: bool)
    ensures
        r == any_needed(needed@, names@),
{
    let mut i: usize = 0;
    while i < names.len()
        invariant
            i <= names@.len(),
            forall|j: int| 0 <= j < i ==> !needed@.contains(#[trigger] names@[j]@),
        decreases names@.len() - i,
    {
        if needed.contains(&names[i]) {
            return true;
        }
        i = i + 1;
    }
    false
}

impl Generator {
    /// Emits the needed constants among the outputs of `node`.
    fn emit_constants(&self, needed: &mut NameSet, node: &NodeData, out: &mut Vec<Stmt>)
        requires
            self.wf(),
            old(needed).wf(),
            forall|i: int|
                0 <= i < node.output@.len() ==> self.vars_view().contains_key(#[trigger] node.output@[i]@),
        ensures
            final(needed).wf(),
            ({
                let (nd, em) = const_outputs(
                    self.vars_view(),
                    old(needed)@,
                    node.output@,
                    node.output@.len(),
                );
                final(needed)@ == nd && stmts_view(final(out)@) == stmts_view(old(out)@) + em
            }),
    {
        let ghost start = stmts_view(out@);
        let mut i: usize = 0;
        while i < node.output.len()
            invariant
                self.wf(),
                needed.wf(),
                i <= node.output@.len(),
                forall|j: int|
                    0 <= j < node.output@.len() ==> self.vars_view().contains_key(
                        #[trigger] node.output@[j]@,
                    ),
                ({
                    let (nd, em) = const_outputs(self.vars_view(), old(needed)@, node.output@, i as nat);
                    needed@ == nd && stmts_view(out@) == start + em
                }),
            decreases node.output@.len() - i,
        {
            let name = &node.output[i];
            let is_const = match self.var(name.as_str()) {
                Some(Var::Const(_)) => true,
                _ => false,
            };
            let ghost before = stmts_view(out@);
            let ghost (nd, em) = const_outputs(self.vars_view(), old(needed)@, node.output@, i as nat);
            if is_const && needed.contains(name) {
                needed.remove(name);
                out.push(Stmt::Constant(name.clone()));
                assert(stmts_view(out@) =~= before.push(StmtView::Constant(name@)));
                assert(start + em.push(StmtView::Constant(name@)) =~= (start + em).push(
                    StmtView::Constant(name@),
                ));
            }
            i = i + 1;
        }
    }
}

/// Binds the outputs of `node`: each needed one to its name.
fn bind_outputs(needed: &mut NameSet, outs: &Vec<String>) -> (r: Vec<Option<String>>)
    requires
        old(needed).wf(),
    ensures
        final(needed).wf(),
        ({
            let (nd, bs) = bound_outputs(old(needed)@, outs@, outs@.len());
            final(needed)@ == nd && r@.map_values(|b: Option<String>| binding_view(b)) == bs
        }),
{
    let mut r: Vec<Option<String>> = Vec::new();
    let mut i: usize = 0;
    while i < outs.len()
        invariant
            needed.wf(),
            i <= outs@.len(),
            ({
                let (nd, bs) = bound_outputs(old(needed)@, outs@, i as nat);
                needed@ == nd && r@.map_values(|b: Option<String>| binding_view(b)) == bs
            }),
        decreases outs@.len() - i,
    {
        let name = &outs[i];
        if needed.remove(name) {
            r.push(Some(name.clone()));
        } else {
            r.push(None);
        }
        assert(r@.map_values(|b: Option<String>| binding_view(b)) =~= r@.drop_last().map_values(
            |b: Option<String>| binding_view(b),
        ).push(binding_view(r@.last())));
        i = i + 1;
    }
    r
}

/// Makes each of `names` needed.
fn need_all(needed: &mut NameSet, names: &Vec<String>)
    requires
        old(needed).wf(),
    ensures
        final(needed).wf(),
        final(needed)@ == old(needed)@.union(name_set(names@)),
{
    let mut i: usize = 0;
    while i < names.len()
        invariant
            needed.wf(),
            i <= names@.len(),
            needed@ == old(needed)@.union(name_set(names@.take(i as int))),
        decreases names@.len() - i,
    {
        needed.insert(names[i].clone());
        assert(name_set(names@.take(i + 1)) =~= name_set(names@.take(i as int)).insert(names@[i as int]@)) by {
            let t = names@.take(i + 1);
            assert forall|x: Seq<char>| #[trigger] name_set(t).contains(x) implies name_set(
                names@.take(i as int),
            ).insert(names@[i as int]@).contains(x) by {
                let j = choose|j: int| 0 <= j < t.len() && #[trigger] t[j]@ == x;
                if j < i {
                    assert(names@.take(i as int)[j]@ == x);
                }
            }
            assert forall|x: Seq<char>| #[trigger] name_set(names@.take(i as int)).insert(
                names@[i as int]@,
            ).contains(x) implies name_set(t).contains(x) by {
                if x == names@[i as int]@ {
                    assert(t[i as int]@ == x);
                } else {
                    let j = choose|j: int| 0 <= j < i && #[trigger] names@.take(i as int)[j]@ == x;
                    assert(t[j]@ == x);
                }
            }
        }
        assert(needed@ =~= old(needed)@.union(name_set(names@.take(i + 1))));
        i = i + 1;
    }
    assert(names@.take(names@.len() as int) =~= names@);
}

impl Generator {
    /// Emits the statements for the node at position `k`.
    fn emit_node(&self, needed: &mut NameSet, node: &NodeData, k: usize, out: &mut Vec<Stmt>)
        requires
            self.wf(),
            old(needed).wf(),
            forall|i: int|
                0 <= i < node.output@.len() ==> self.vars_view().contains_key(#[trigger] node.output@[i]@),
        ensures
            final(needed).wf(),
            ({
                let (nd, em) = node_step(self.vars_view(), old(needed)@, *node, k as nat);
                final(needed)@ == nd && stmts_view(final(out)@) == stmts_view(old(out)@) + em
            }),
    {
        if !any_in(needed, &node.output) {
            assert(stmts_view(out@) =~= stmts_view(out@) + Seq::<StmtView>::empty());
            return;
        }
        self.emit_constants(needed, node, out);
        if !any_in(needed, &node.output) {
            return;
        }
        let ghost before = stmts_view(out@);
        let bindings = bind_outputs(needed, &node.output);
        out.push(Stmt::Let { node: k, bindings });
        assert(stmts_view(out@) =~= before.push(stmts_view(out@).last()));
        need_all(needed, &node.input);
        proof {
            let (n1, consts) = const_outputs(
                self.vars_view(),
                old(needed)@,
                node.output@,
                node.output@.len(),
            );
            assert(before == stmts_view(old(out)@) + consts);
            assert(stmts_view(old(out)@) + consts.push(stmts_view(out@).last()) =~= before.push(
                stmts_view(out@).last(),
            ));
        }
    }

    /// Whether every output of every node of `graph` and every one of its
    /// initializers is known, the initializers as constants (see
    /// [`graph_defined`]).
    pub fn defines_graph(&self, graph: &GraphData) -> (r: bool)
        requires
            self.wf(),
        ensures
            r == graph_defined(self.vars_view(), *graph),
    {
        let mut k: usize = 0;
        while k < graph.node.len()
            invariant
                self.wf(),
                k <= graph.node@.len(),
                forall|k2: int, i: int|
                    0 <= k2 < k && 0 <= i < graph.node@[k2].output@.len() ==> self.vars_view().contains_key(
                        #[trigger] graph.node@[k2].output@[i]@,
                    ),
            decreases graph.node@.len() - k,
        {
            let outputs = &graph.node[k].output;
            let mut i: usize = 0;
            while i < outputs.len()
                invariant
                    self.wf(),
                    k < graph.node@.len(),
                    outputs == graph.node@[k as int].output,
                    i <= outputs@.len(),
                    forall|k2: int, i2: int|
                        0 <= k2 < k && 0 <= i2 < graph.node@[k2].output@.len() ==> self.vars_view().contains_key(
                            #[trigger] graph.node@[k2].output@[i2]@,
                        ),
                    forall|i2: int| 0 <= i2 < i ==> self.vars_view().contains_key(#[trigger] outputs@[i2]@),
                decreases outputs@.len() - i,
            {
                if self.var(outputs[i].as_str()).is_none() {
                    assert(!self.vars_view().contains_key(graph.node@[k as int].output@[i as int]@));
                    return false;
                }
                i = i + 1;
            }
            assert forall|k2: int, i2: int|
                0 <= k2 < k + 1 && 0 <= i2 < graph.node@[k2].output@.len() implies self.vars_view().contains_key(
                #[trigger] graph.node@[k2].output@[i2]@,
            ) by {
                if k2 == k {
                    assert(self.vars_view().contains_key(outputs@[i2]@));
                }
            }
            k = k + 1;
        }
        let mut k: usize = 0;
        while k < graph.initializer.len()
            invariant
                self.wf(),
                k <= graph.initializer@.len(),
                forall|k2: int| 0 <= k2 < k ==> self.vars_view().contains_key(#[trigger] graph.initializer@[k2].name@)
                    && self.vars_view()[graph.initializer@[k2].name@] is Const,
            decreases graph.initializer@.len() - k,
        {
            match self.var(graph.initializer[k].name.as_str()) {
                Some(Var::Const(_)) => {},
                _ => {
                    return false;
                },
            }
            k = k + 1;
        }
        true
    }

    /// The statements of the function that computes the outputs of `graph`
    /// from its inputs, in order: from the outputs backward, each node with
    /// a needed output gives its needed constant outputs and, where an
    /// output is still needed, the binding of its operation, whose inputs
    /// are then needed; then each needed constant of the graph is given. A
    /// value still needed that is no input of the graph is refused.
    pub fn plan(&self, graph: &GraphData) -> (r: Result<Vec<Stmt>, GenError>)
        requires
            self.wf(),
            graph_defined(self.vars_view(), *graph),
        ensures
            match graph_plan(self.vars_view(), *graph) {
                Some(stmts) => r matches Ok(v) && stmts_view(v@) == stmts,
                None => r == Err::<Vec<Stmt>, GenError>(GenError::UnfulfilledOutputs),
            },
    {
        let ghost vars = self.vars_view();
        let ghost nodes = graph.node@;
        let ghost inits = graph.initializer@;
        let mut needed = NameSet::new();
        let mut i: usize = 0;
        while i < graph.output.len()
            invariant
                needed.wf(),
                i <= graph.output@.len(),
                needed@ == info_names(graph.output@.take(i as int)),
            decreases graph.output@.len() - i,
        {
            needed.insert(graph.output[i].name.clone());
            assert(needed@ =~= info_names(graph.output@.take(i + 1))) by {
                let t = graph.output@.take(i + 1);
                assert forall|x: Seq<char>| #[trigger] needed@.contains(x) implies info_names(t).contains(
                    x,
                ) by {
                    if x == graph.output@[i as int].name@ {
                        assert(t[i as int].name@ == x);
                    } else {
                        let j = choose|j: int|
                            0 <= j < i && #[trigger] graph.output@.take(i as int)[j].name@ == x;
                        assert(t[j].name@ == x);
                    }
                }
                assert forall|x: Seq<char>| #[trigger] info_names(t).contains(x) implies needed@.contains(
                    x,
                ) by {
                    let j = choose|j: int| 0 <= j < t.len() && #[trigger] t[j].name@ == x;
                    if j < i {
                        assert(graph.output@.take(i as int)[j].name@ == x);
                    }
                }
            }
            i = i + 1;
        }
        assert(graph.output@.take(graph.output@.len() as int) =~= graph.output@);
        let ghost n0 = needed@;
        let ghost (final_nodes, all_nodes) = nodes_plan(vars, n0, nodes, nodes.len());
        let mut out: Vec<Stmt> = Vec::new();
        let mut k: usize = graph.node.len();
        while k > 0
            invariant
                self.wf(),
                needed.wf(),
                vars == self.vars_view(),
                nodes == graph.node@,
                k <= nodes.len(),
                graph_defined(vars, *graph),
                nodes_plan(vars, n0, nodes, nodes.len()) == (
                    nodes_plan(vars, needed@, nodes, k as nat).0,
                    stmts_view(out@) + nodes_plan(vars, needed@, nodes, k as nat).1,
                ),
            decreases k,
        {
            k = k - 1;
            let ghost before = stmts_view(out@);
            let ghost n_before = needed@;
            self.emit_node(&mut needed, &graph.node[k], k, &mut out);
            proof {
                let (n1, e1) = node_step(vars, n_before, nodes[k as int], k as nat);
                let (n2, e2) = nodes_plan(vars, n1, nodes, k as nat);
                assert(nodes_plan(vars, n_before, nodes, (k + 1) as nat) == (n2, e1 + e2));
                assert(before + (e1 + e2) =~= (before + e1) + e2);
            }
        }
        let ghost n1 = needed@;
        let mut k: usize = graph.initializer.len();
        while k > 0
            invariant
                self.wf(),
                needed.wf(),
                vars == self.vars_view(),
                inits == graph.initializer@,
                k <= inits.len(),
                graph_defined(vars, *graph),
                nodes_plan(vars, n0, nodes, nodes.len()) == (n1, all_nodes),
                constants_plan(n1, inits, inits.len()) == (
                    constants_plan(needed@, inits, k as nat).0,
                    stmts_view(out@).subrange(all_nodes.len() as int, stmts_view(out@).len() as int)
                        + constants_plan(needed@, inits, k as nat).1,
                ),
                stmts_view(out@).subrange(0, all_nodes.len() as int) == all_nodes,
                all_nodes.len() <= out@.len(),
            decreases k,
        {
            k = k - 1;
            let ghost before = stmts_view(out@);
            let ghost n_before = needed@;
            let name = &graph.initializer[k].name;
            if needed.remove(name) {
                out.push(Stmt::Constant(name.clone()));
            }
            proof {
                let t = inits[k as int].name@;
                let (na, ea) = if n_before.contains(t) {
                    (n_before.remove(t), seq![StmtView::Constant(t)])
                } else {
                    (n_before, Seq::<StmtView>::empty())
                };
                assert(stmts_view(out@) =~= before + ea);
                assert(needed@ =~= na);
                let (nb, eb) = constants_plan(na, inits, k as nat);
                assert(constants_plan(n_before, inits, (k + 1) as nat) == (nb, ea + eb));
                let len = all_nodes.len() as int;
                assert(stmts_view(out@).subrange(len, stmts_view(out@).len() as int) =~= before.subrange(
                    len,
                    before.len() as int,
                ) + ea);
                assert(before.subrange(len, before.len() as int) + (ea + eb) =~= (before.subrange(
                    len,
                    before.len() as int,
                ) + ea) + eb);
                assert(stmts_view(out@).subrange(0, len) =~= before.subrange(0, len));
            }
        }
        let ghost n2 = needed@;
        let mut i: usize = 0;
        while i < graph.input.len()
            invariant
                needed.wf(),
                i <= graph.input@.len(),
                needed@ == n2.difference(info_names(graph.input@.take(i as int))),
            decreases graph.input@.len() - i,
        {
            needed.remove(&graph.input[i].name);
            assert(needed@ =~= n2.difference(info_names(graph.input@.take(i + 1)))) by {
                let t = graph.input@.take(i + 1);
                assert forall|x: Seq<char>| #[trigger] info_names(t).contains(x) <==> (info_names(
                    graph.input@.take(i as int),
                ).contains(x) || x == graph.input@[i as int].name@) by {
                    if info_names(t).contains(x) {
                        let j = choose|j: int| 0 <= j < t.len() && #[trigger] t[j].name@ == x;
                        if j < i {
                            assert(graph.input@.take(i as int)[j].name@ == x);
                        }
                    }
                    if x == graph.input@[i as int].name@ {
                        assert(t[i as int].name@ == x);
                    }
                    if info_names(graph.input@.take(i as int)).contains(x) {
                        let j = choose|j: int|
                            0 <= j < i && #[trigger] graph.input@.take(i as int)[j].name@ == x;
                        assert(t[j].name@ == x);
                    }
                }
            }
            i = i + 1;
        }
        assert(graph.input@.take(graph.input@.len() as int) =~= graph.input@);
        if needed.names.len() != 0 {
            assert(needed@.contains(needed.names@[0]@));
            return Err(GenError::UnfulfilledOutputs);
        }
        assert(needed@ =~= Set::<Seq<char>>::empty());
        let ghost emitted = stmts_view(out@);
        assert(emitted =~= all_nodes + constants_plan(n1, inits, inits.len()).1);
        let mut rev: Vec<Stmt> = Vec::new();
        while out.len() > 0
            invariant
                stmts_view(rev@) + stmts_view(out@).reverse() == emitted.reverse(),
            decreases out.len(),
        {
            let ghost prev = stmts_view(out@);
            let ghost prev_rev = stmts_view(rev@);
            match out.pop() {
                Some(st) => {
                    rev.push(st);
                    assert(stmts_view(out@) =~= prev.drop_last());
                    assert(stmts_view(rev@) =~= prev_rev.push(prev.last()));
                    assert(prev.reverse() =~= seq![prev.last()] + prev.drop_last().reverse());
                    assert(prev_rev.push(prev.last()) + prev.drop_last().reverse() =~= prev_rev + (seq![
                        prev.last(),
                    ] + prev.drop_last().reverse()));
                },
                None => {},
            }
        }
        assert(stmts_view(out@).reverse() =~= Seq::<StmtView>::empty());
        assert(stmts_view(rev@) =~= stmts_view(rev@) + Seq::<StmtView>::empty());
        Ok(rev)
    }
}

// ---------------------------------------------------------------------------
// Pieces of the compiled code
// ---------------------------------------------------------------------------

/// Whether `c` is an ASCII letter or digit.
pub open spec fn is_alphanumeric(c: char) -> bool {
    ('a' <= c && c <= 'z') || ('A' <= c && c <= 'Z') || ('0' <= c && c <= '9')
}

/// The identifier of a value or graph named `s`: every character other
/// than an ASCII letter or digit becomes `_`, and an underscore is put
/// before a leading digit.
pub open spec fn ident_of(s: Seq<char>) -> Seq<char> {
    let body = s.map_values(|c: char| if is_alphanumeric(c) { c } else { '_' });
    if '0' <= s[0] && s[0] <= '9' {
        seq!['_'] + body
    } else {
        body
    }
}

/// The identifier of a value or graph named `s`.
pub fn ident_name(s: &str) -> (r: String)
    requires
        s@.len() > 0,
    ensures
        r@ == ident_of(s@),
{
    broadcast use vstd::string::group_string_axioms;

    let mut body: Vec<char> = Vec::new();
    for c in it: s.chars()
        invariant
            body@ == it.seq().take(it.index() as int).map_values(
                |c: char| if is_alphanumeric(c) { c } else { '_' },
            ),
    {
        let alnum = ('a' <= c && c <= 'z') || ('A' <= c && c <= 'Z') || ('0' <= c && c <= '9');
        let ghost prefix = body@;
        body.push(if alnum { c } else { '_' });
        assert(body@ =~= it.seq().take(it.index() + 1).map_values(
            |c: char| if is_alphanumeric(c) { c } else { '_' },
        )) by {
            assert(it.seq().take(it.index() + 1) =~= it.seq().take(it.index() as int).push(c));
        }
    }
    let first = s.get_char(0);
    let mut r = String::new();
    if '0' <= first && first <= '9' {
        r.append("_");
    }
    let ghost lead = r@;
    let mut k: usize = 0;
    while k < body.len()
        invariant
            k <= body@.len(),
            r@ == lead + body@.take(k as int),
        decreases body@.len() - k,
    {
        crate::sheet::push_char(&mut r, body[k]);
        assert(body@.take(k + 1) =~= body@.take(k as int).push(body@[k as int]));
        k = k + 1;
    }
    proof {
        reveal_strlit("_");
        assert(body@.take(body@.len() as int) =~= body@);
    }
    r
}

/// The indices that read the element at `indices`, the first `n` of them,
/// of a value of the given shape broadcast onto the output: the indices
/// align with the last axes of the value; an index without an axis is
/// dropped, and one along an axis of dimension 1 is 0.
pub open spec fn broadcast_path(shape: Seq<usize>, indices: Seq<usize>, n: nat) -> Seq<usize>
    decreases n,
{
    if n == 0 {
        Seq::empty()
    } else {
        let rest = broadcast_path(shape, indices, (n - 1) as nat);
        let axis = n - 1;
        match crate::tensor::dim_at(shape, axis - indices.len()) {
            None => rest,
            Some(d) => rest.push(
                if d == 1 {
                    0
                } else {
                    indices[axis]
                },
            ),
        }
    }
}

/// The indices that read the element at `indices` of a value of type `ty`
/// broadcast onto the output.
pub fn broadcast_indices(ty: &TensorType, indices: &[usize]) -> (r: Vec<usize>)
    requires
        indices@.len() <= i64::MAX,
    ensures
        r@ == broadcast_path(ty.shape_view(), indices@, indices@.len()),
{
    let n = indices.len();
    let mut r: Vec<usize> = Vec::new();
    let mut axis: usize = 0;
    while axis < n
        invariant
            n == indices@.len(),
            n <= i64::MAX,
            axis <= n,
            r@ == broadcast_path(ty.shape_view(), indices@, axis as nat),
        decreases n - axis,
    {
        match ty.dim(axis as i64 - n as i64) {
            None => {},
            Some(1) => r.push(0),
            Some(_) => r.push(indices[axis]),
        }
        axis = axis + 1;
    }
    r
}

/// The offsets of the inputs of a concatenation along its axis: the sums of
/// the dimensions of those before each.
pub open spec fn offsets_of(dims: Seq<usize>, n: nat) -> Seq<usize>
    decreases n,
{
    if n == 0 {
        Seq::empty()
    } else {
        let before = offsets_of(dims, (n - 1) as nat);
        before.push(dim_sum(dims, (n - 1) as nat) as usize)
    }
}

/// The sum of the first `n` dimensions.
pub open spec fn dim_sum(dims: Seq<usize>, n: nat) -> int
    decreases n,
{
    if n == 0 {
        0
    } else {
        dim_sum(dims, (n - 1) as nat) + dims[n - 1]
    }
}

proof fn lemma_dim_sum_monotonic(dims: Seq<usize>, i: nat, n: nat)
    requires
        i <= n,
    ensures
        0 <= dim_sum(dims, i) <= dim_sum(dims, n),
    decreases n,
{
    if i < n {
        lemma_dim_sum_monotonic(dims, i, (n - 1) as nat);
    } else if n > 0 {
        lemma_dim_sum_monotonic(dims, (n - 1) as nat, (n - 1) as nat);
    }
}

/// The offsets of the inputs of a concatenation, whose dimensions along its
/// axis are `dims`.
pub fn concat_offsets(dims: &[usize]) -> (r: Vec<usize>)
    requires
        dim_sum(dims@, dims@.len()) <= usize::MAX,
    ensures
        r@ == offsets_of(dims@, dims@.len()),
{
    let mut r: Vec<usize> = Vec::new();
    let mut sum: usize = 0;
    let mut i: usize = 0;
    while i < dims.len()
        invariant
            i <= dims@.len(),
            dim_sum(dims@, dims@.len()) <= usize::MAX,
            sum == dim_sum(dims@, i as nat),
            r@ == offsets_of(dims@, i as nat),
        decreases dims@.len() - i,
    {
        r.push(sum);
        proof {
            lemma_dim_sum_monotonic(dims@, (i + 1) as nat, dims@.len());
        }
        sum = sum + dims[i];
        i = i + 1;
    }
    r
}

/// Calls `binary_search` of slices on `s`, which its documentation says is
/// sorted: the position of an element equal to `x`, any one of them, or
/// the position where `x` would be inserted to keep the order.
#[verifier::external_body]
fn binary_search(s: &[usize], x: usize) -> (r: Result<usize, usize>)
    requires
        forall|i: int, j: int| 0 <= i <= j < s@.len() ==> s@[i] <= s@[j],
    ensures
        match r {
            Ok(i) => i < s@.len() && s@[i as int] == x,
            Err(i) => i <= s@.len() && (forall|j: int| 0 <= j < i ==> s@[j] < x) && (forall|j: int|
                i <= j < s@.len() ==> s@[j] > x),
        },
{
    s.binary_search(&x)
}

/// The input of a concatenation and the index into it that hold position
/// `x` along the axis, from the offsets of the inputs: an input whose
/// offset is `x`, at 0, or else the last input whose offset is below `x`.
pub fn concat_source(offsets: &[usize], x: usize) -> (r: (usize, usize))
    requires
        offsets@.len() > 0,
        offsets@[0] == 0,
        forall|i: int, j: int| 0 <= i <= j < offsets@.len() ==> offsets@[i] <= offsets@[j],
    ensures
        r.0 < offsets@.len(),
        offsets@[r.0 as int] + r.1 == x,
        r.1 == 0 || (offsets@[r.0 as int] < x && forall|j: int|
            r.0 < j < offsets@.len() ==> offsets@[j] > x),
{
    match binary_search(offsets, x) {
        Ok(i) => (i, 0),
        Err(i) => (i - 1, x - offsets[i - 1]),
    }
}

/// The starts of a slice along each axis of data of the given shape: 0,
/// but along the sliced axes, where the last range of each gives its
/// start, wrapped by the dimension.
pub open spec fn slice_starts_of(shape: Seq<usize>, starts: Tensor, axes: Tensor, n: nat) -> Seq<usize>
    decreases n,
{
    if n == 0 {
        Seq::new(shape.len(), |k: int| 0usize)
    } else {
        let before = slice_starts_of(shape, starts, axes, (n - 1) as nat);
        let i = seq![(n - 1) as usize];
        let a = wrapped_index(axes.i64_element(i) as int, shape.len() as int)->0;
        let s = wrapped_index(starts.i64_element(i) as int, shape[a] as int)->0;
        before.update(a, s as usize)
    }
}

/// Whether the ranges of a slice of data of the given shape are vectors of
/// `i64` elements whose axes and starts lie within their bounds.
pub open spec fn slice_ranges_valid(shape: Seq<usize>, starts: Tensor, axes: Tensor) -> bool {
    &&& shape.len() <= i64::MAX
    &&& forall|k: int| 0 <= k < shape.len() ==> #[trigger] shape[k] <= i64::MAX
    &&& starts.tensor_type().elem_view() == ElementType::I64
    &&& axes.tensor_type().elem_view() == ElementType::I64
    &&& axes.tensor_type().shape_view().len() == 1
    &&& starts.tensor_type().shape_view() == axes.tensor_type().shape_view()
    &&& forall|i: usize|
        #![trigger axes.i64_element(seq![i])]
        i < axes.tensor_type().shape_view()[0] ==> {
            &&& wrapped_index(axes.i64_element(seq![i]) as int, shape.len() as int) matches Some(a)
            &&& wrapped_index(starts.i64_element(seq![i]) as int, shape[a] as int) is Some
        }
}

/// The index into a slice's data of the output index `indices`: each
/// start plus the matching index, as far as both lists go; `None` where a
/// sum overflows.
pub fn slice_source(starts: &[usize], indices: &[usize]) -> (r: Option<Vec<usize>>)
    ensures
        ({
            let n = if starts@.len() < indices@.len() {
                starts@.len()
            } else {
                indices@.len()
            };
            match r {
                Some(v) => v@.len() == n && forall|i: int| 0 <= i < n ==> #[trigger] v@[i] == starts@[i] + indices@[i],
                None => exists|i: int| 0 <= i < n && #[trigger] starts@[i] + indices@[i] > usize::MAX,
            }
        }),
{
    let n = if starts.len() < indices.len() {
        starts.len()
    } else {
        indices.len()
    };
    let mut v: Vec<usize> = Vec::new();
    let mut i: usize = 0;
    while i < n
        invariant
            n <= starts@.len(),
            n <= indices@.len(),
            i <= n,
            v@.len() == i,
            forall|j: int| 0 <= j < i ==> #[trigger] v@[j] == starts@[j] + indices@[j],
        decreases n - i,
    {
        match starts[i].checked_add(indices[i]) {
            Some(x) => {
                v.push(x);
            },
            None => {
                assert(starts@[i as int] + indices@[i as int] > usize::MAX);
                return None;
            },
        }
        i = i + 1;
    }
    Some(v)
}

/// The starts of a slice along each axis of data of the given shape.
pub fn slice_starts(shape: &[usize], starts: &Tensor, axes: &Tensor) -> (r: Vec<usize>)
    requires
        slice_ranges_valid(shape@, *starts, *axes),
    ensures
        r@ == slice_starts_of(shape@, *starts, *axes, axes.tensor_type().shape_view()[0] as nat),
{
    let rank = shape.len();
    let mut r: Vec<usize> = Vec::new();
    let mut k: usize = 0;
    while k < rank
        invariant
            k <= rank,
            rank == shape@.len(),
            r@ == Seq::new(k as nat, |j: int| 0usize),
        decreases rank - k,
    {
        r.push(0);
        assert(r@ =~= Seq::new((k + 1) as nat, |j: int| 0usize));
        k = k + 1;
    }
    let n = axes.shape()[0];
    let mut i: usize = 0;
    while i < n
        invariant
            i <= n,
            n == axes.tensor_type().shape_view()[0],
            rank == shape@.len(),
            slice_ranges_valid(shape@, *starts, *axes),
            r@ == slice_starts_of(shape@, *starts, *axes, i as nat),
            r@.len() == rank,
        decreases n - i,
    {
        let start = vector_element(starts, i);
        let axis = vector_element(axes, i);
        assert(wrapped_index(axes.i64_element(seq![i]) as int, shape@.len() as int) is Some);
        let a = wrap_index(axis, rank).unwrap();
        let s = wrap_index(start, shape[a]).unwrap();
        r.set(a, s);
        i = i + 1;
    }
    r
}

/// The layout of a matrix product: the rows `m` and columns `k` of `A`, the
/// columns `n` of `B`, as transposed, and the strides between rows and
/// between columns of `A`, `B` and the output, which is stored column by
/// column.
#[derive(Debug, PartialEq, Eq, Structural)]
pub struct GemmLayout {
    pub m: usize,
    pub k: usize,
    pub n: usize,
    pub rsa: isize,
    pub csa: isize,
    pub rsb: isize,
    pub csb: isize,
    pub rsc: isize,
    pub csc: isize,
}

/// The layout of the product of matrices of shapes `a` and `b`.
pub open spec fn gemm_layout_of(a: Seq<usize>, b: Seq<usize>, trans_a: bool, trans_b: bool) -> GemmLayout {
    let (m, k) = if trans_a {
        (a[1], a[0])
    } else {
        (a[0], a[1])
    };
    let n = if trans_b {
        b[0]
    } else {
        b[1]
    };
    GemmLayout {
        m,
        k,
        n,
        rsa: if trans_a {
            1
        } else {
            k as isize
        },
        csa: if trans_a {
            m as isize
        } else {
            1
        },
        rsb: if trans_b {
            1
        } else {
            n as isize
        },
        csb: if trans_b {
            k as isize
        } else {
            1
        },
        rsc: 1,
        csc: m as isize,
    }
}

/// The layout of the product of matrices of shapes `a` and `b`.
pub fn gemm_layout(a: &[usize], b: &[usize], trans_a: bool, trans_b: bool) -> (r: GemmLayout)
    requires
        a@.len() == 2,
        b@.len() == 2,
    ensures
        r == gemm_layout_of(a@, b@, trans_a, trans_b),
{
    let (m, k) = if trans_a {
        (a[1], a[0])
    } else {
        (a[0], a[1])
    };
    let n = if trans_b {
        b[0]
    } else {
        b[1]
    };
    let (rsa, csa) = if trans_a {
        (1isize, m as isize)
    } else {
        (k as isize, 1isize)
    };
    let (rsb, csb) = if trans_b {
        (1isize, k as isize)
    } else {
        (n as isize, 1isize)
    };
    GemmLayout { m, k, n, rsa, csa, rsb, csb, rsc: 1, csc: m as isize }
}

/// Whether a constant is compiled into a `static` rather than a `const`:
/// where its data is larger than 8 bytes.
pub fn is_static(t: &Tensor) -> (r: bool)
    ensures
        r == (t.bytes().len() > 8),
{
    t.as_bytes().len() > 8
}

/// Once an addition is refused, the later ones are not made.
proof fn lemma_vars_added_err(vars: Map<Seq<char>, Var>, names: Seq<String>, vals: Seq<Var>, m: nat, n: nat)
    requires
        m <= n,
        vars_added(vars, names, vals, m).1 is Err,
    ensures
        vars_added(vars, names, vals, n) == vars_added(vars, names, vals, m),
    decreases n,
{
    if m < n {
        lemma_vars_added_err(vars, names, vals, m, (n - 1) as nat);
    }
}

} // verus!
