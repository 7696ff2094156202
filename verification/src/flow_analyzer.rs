//! Flow analysis: the control-flow graph as an arena of blocks indexed by
//! integer id, iterative-fixpoint dominance, natural-loop detection from
//! back edges, per-block dataflow summaries, and derived optimization
//! opportunities.

use vstd::prelude::*;
use vstd::pervasive::VecAdditionalExecFns;
use vstd::string::StringExecFns;
use crate::intent_extractor::{ProgramIntent, Operation, OperationType, ArithmeticOp,
    ControlFlowNodeType};
use crate::semantic_analyzer::SemanticModel;
use crate::type_inferencer::TypeModel;

verus! {

#[derive(Debug, Clone, Copy, PartialEq, Eq, Structural)]
pub enum ControlBlockType {
    Entry,
    Exit,
    Basic,
    LoopHeader,
    LoopLatch,
    Conditional,
    Merge,
}

#[derive(Debug, Clone, Copy, PartialEq, Eq, Structural)]
pub enum Opcode {
    Add,
    Sub,
    Mul,
    Div,
    Mod,
    And,
    Or,
    Xor,
    Not,
    Eq,
    Ne,
    Lt,
    Le,
    Gt,
    Ge,
    Load,
    Store,
    Alloca,
    Br,
    CondBr,
    Ret,
    Call,
    Cast,
    Trunc,
    Ext,
    Phi,
    Select,
}

#[derive(Debug, Clone, Copy, PartialEq, Eq, Structural)]
pub enum OperandType {
    Register,
    Immediate,
    Memory,
    Label,
}

#[derive(Debug, Clone, Copy, PartialEq, Eq, Structural)]
pub enum SideEffect {
    ModifiesMemory,
    ReadsMemory,
    CallsFunction,
    ThrowsException,
    HasIO,
}

/// An instruction identifier: the block's index and the instruction's
/// position within the block.
#[derive(Debug, Clone, Copy, PartialEq, Eq, Structural)]
pub struct InstrId {
    pub block: usize,
    pub index: usize,
}

#[derive(Debug, Clone)]
pub struct Operand {
    pub operand_type: OperandType,
    pub value: String,
    pub data_type: String,
}

#[derive(Debug, Clone)]
pub struct Instruction {
    pub id: InstrId,
    pub opcode: Opcode,
    pub operands: Vec<Operand>,
    pub result: Option<String>,
    pub side_effects: Vec<SideEffect>,
}

/// One block of the flow-level control-flow graph; predecessors and
/// successors are indices into the block arena.
#[derive(Debug, Clone)]
pub struct ControlBlock {
    pub id: usize,
    pub block_type: ControlBlockType,
    pub predecessors: Vec<usize>,
    pub successors: Vec<usize>,
    pub instructions: Vec<Instruction>,
    pub dominates: Vec<usize>,
    pub dominated_by: Vec<usize>,
}

#[derive(Debug, Clone, Copy, PartialEq, Eq, Structural)]
pub enum DataFlowType {
    Definition,
    Use,
    DefUse,
    AntiDependence,
    OutputDependence,
}

#[derive(Debug, Clone)]
pub struct DataFlow {
    pub from_instruction: InstrId,
    pub to_instruction: InstrId,
    pub variable: String,
    pub flow_type: DataFlowType,
    pub distance: usize,
}

#[derive(Debug, Clone)]
pub struct DominanceNode {
    pub block_id: usize,
    pub children: Vec<usize>,
    pub dominance_level: usize,
}

#[derive(Debug, Clone)]
pub struct DominanceTree {
    pub nodes: Vec<DominanceNode>,
    pub root: usize,
    pub immediate_dominators: Vec<(usize, usize)>,
}

#[derive(Debug, Clone, Copy, PartialEq, Eq, Structural)]
pub enum TripCount {
    Constant(usize),
    Variable,
    Unknown,
}

/// A natural loop: the body is every block that reaches the latch without
/// passing through the header, plus the header itself.
#[derive(Debug, Clone)]
pub struct NaturalLoop {
    pub header: usize,
    pub latch: usize,
    pub body: Vec<usize>,
    pub exits: Vec<usize>,
    pub depth: usize,
    pub trip_count: Option<TripCount>,
}

#[derive(Debug, Clone)]
pub struct LoopNestingTree {
    pub root_loops: Vec<usize>,
    pub nesting_levels: Vec<(usize, usize)>,
}

#[derive(Debug, Clone)]
pub struct InductionVariable {
    pub name: String,
    pub initial_value: String,
    pub step: String,
    pub is_primary: bool,
}

#[derive(Debug, Clone)]
pub struct LoopAnalysis {
    pub natural_loops: Vec<NaturalLoop>,
    pub loop_nesting_tree: LoopNestingTree,
    pub induction_variables: Vec<InductionVariable>,
}

#[derive(Debug, Clone, Copy, PartialEq, Eq, Structural)]
pub enum OptimizationType {
    DeadCodeElimination,
    CommonSubexpressionElimination,
    ConstantPropagation,
    LoopInvariantCodeMotion,
    StrengthReduction,
    LoopUnrolling,
    Vectorization,
    InstructionScheduling,
}

#[derive(Debug, Clone, Copy, PartialEq, Eq, Structural)]
pub enum OptimizationBenefit {
    High,
    Medium,
    Low,
    Negligible,
}

#[derive(Debug, Clone)]
pub struct OptimizationOpportunity {
    pub opportunity_type: OptimizationType,
    pub description: String,
    pub affected_blocks: Vec<usize>,
    pub estimated_benefit: OptimizationBenefit,
    pub prerequisites: Vec<String>,
}

/// The flow model: control blocks, dominator sets, natural loops,
/// per-block dataflow summaries, and optimization opportunities. The
/// dominator sets are bit rows: `dominator_sets[b][x]` says that block `x`
/// dominates block `b`.
#[derive(Debug)]
pub struct FlowModel {
    pub control_blocks: Vec<ControlBlock>,
    pub data_flows: Vec<DataFlow>,
    pub dominance_tree: DominanceTree,
    pub dominator_sets: Vec<Vec<bool>>,
    pub loop_analysis: LoopAnalysis,
    pub reaching_definitions: Vec<(String, InstrId)>,
    pub live_variables: Vec<Vec<String>>,
    pub available_expressions: Vec<Vec<String>>,
    pub optimization_opportunities: Vec<OptimizationOpportunity>,
}

/// The first operation with the given id, if any.
pub open spec fn find_op(ops: Seq<Operation>, id: usize, from: int) -> Option<int>
    decreases ops.len() - from,
{
    if from < 0 || from >= ops.len() {
        None
    } else if ops[from].id == id {
        Some(from)
    } else {
        find_op(ops, id, from + 1)
    }
}

/// How many of the first `upto` referenced operation ids resolve to an
/// operation.
pub open spec fn count_resolvable(ops: Seq<Operation>, ids: Seq<usize>, upto: int) -> int
    decreases upto,
{
    if upto <= 0 {
        0
    } else {
        count_resolvable(ops, ids, upto - 1) + if find_op(ops, ids[upto - 1], 0) is Some {
            1int
        } else {
            0int
        }
    }
}

pub proof fn lemma_count_resolvable_mono(ops: Seq<Operation>, ids: Seq<usize>, a: int, b: int)
    requires
        0 <= a <= b,
    ensures
        0 <= count_resolvable(ops, ids, a) <= count_resolvable(ops, ids, b)
            <= count_resolvable(ops, ids, a) + (b - a),
    decreases b,
{
    if a < b {
        lemma_count_resolvable_mono(ops, ids, a, b - 1);
    } else if a > 0 {
        lemma_count_resolvable_mono(ops, ids, a - 1, a - 1);
    }
}

/// The first node with the given id, if any.
pub open spec fn find_node(nodes: Seq<crate::intent_extractor::ControlFlowNode>, id: usize, from: int) -> Option<int>
    decreases nodes.len() - from,
{
    if from < 0 || from >= nodes.len() {
        None
    } else if nodes[from].id == id {
        Some(from)
    } else {
        find_node(nodes, id, from + 1)
    }
}

/// Number of edges among the first `upto` that enter the given node id
/// from a resolvable node.
pub open spec fn count_pred_edges(
    nodes: Seq<crate::intent_extractor::ControlFlowNode>,
    edges: Seq<crate::intent_extractor::ControlFlowEdge>,
    node_id: usize,
    upto: int,
) -> int
    decreases upto,
{
    if upto <= 0 {
        0
    } else {
        count_pred_edges(nodes, edges, node_id, upto - 1)
            + if edges[upto - 1].to == node_id && find_node(nodes, edges[upto - 1].from, 0) is Some {
                1int
            } else {
                0int
            }
    }
}

/// Number of edges among the first `upto` that leave the given node id for
/// a resolvable node.
pub open spec fn count_succ_edges(
    nodes: Seq<crate::intent_extractor::ControlFlowNode>,
    edges: Seq<crate::intent_extractor::ControlFlowEdge>,
    node_id: usize,
    upto: int,
) -> int
    decreases upto,
{
    if upto <= 0 {
        0
    } else {
        count_succ_edges(nodes, edges, node_id, upto - 1)
            + if edges[upto - 1].from == node_id && find_node(nodes, edges[upto - 1].to, 0) is Some {
                1int
            } else {
                0int
            }
    }
}

pub proof fn lemma_count_edges_mono(
    nodes: Seq<crate::intent_extractor::ControlFlowNode>,
    edges: Seq<crate::intent_extractor::ControlFlowEdge>,
    node_id: usize,
    a: int,
    b: int,
)
    requires
        0 <= a <= b,
    ensures
        0 <= count_pred_edges(nodes, edges, node_id, a) <= count_pred_edges(nodes, edges, node_id, b)
            <= count_pred_edges(nodes, edges, node_id, a) + (b - a),
        0 <= count_succ_edges(nodes, edges, node_id, a) <= count_succ_edges(nodes, edges, node_id, b)
            <= count_succ_edges(nodes, edges, node_id, a) + (b - a),
    decreases b,
{
    if a < b {
        lemma_count_edges_mono(nodes, edges, node_id, a, b - 1);
    } else if a > 0 {
        lemma_count_edges_mono(nodes, edges, node_id, a - 1, a - 1);
    }
}

/// The block's predecessor and successor index lists, derived from the
/// edge list in order.
pub open spec fn block_edges_ok(
    cb: ControlBlock,
    nodes: Seq<crate::intent_extractor::ControlFlowNode>,
    edges: Seq<crate::intent_extractor::ControlFlowEdge>,
    node_id: usize,
) -> bool {
    &&& cb.predecessors@.len() == count_pred_edges(nodes, edges, node_id, edges.len() as int)
    &&& forall|e: int| 0 <= e < edges.len() && (#[trigger] edges[e]).to == node_id
        && find_node(nodes, edges[e].from, 0) is Some
        ==> cb.predecessors@[count_pred_edges(nodes, edges, node_id, e)] as int
            == find_node(nodes, edges[e].from, 0)->0
    &&& cb.successors@.len() == count_succ_edges(nodes, edges, node_id, edges.len() as int)
    &&& forall|e: int| 0 <= e < edges.len() && (#[trigger] edges[e]).from == node_id
        && find_node(nodes, edges[e].to, 0) is Some
        ==> cb.successors@[count_succ_edges(nodes, edges, node_id, e)] as int
            == find_node(nodes, edges[e].to, 0)->0
}

/// The instruction generated for one operation, at the given position.
pub open spec fn instr_for_op(ins: Instruction, op: Operation, iid: InstrId) -> bool {
    &&& ins.id == iid
    &&& match op.operation_type {
        OperationType::Arithmetic { operator } => {
            &&& ins.opcode == (match operator {
                ArithmeticOp::Add => Opcode::Add,
                ArithmeticOp::Subtract => Opcode::Sub,
                ArithmeticOp::Multiply => Opcode::Mul,
                ArithmeticOp::Divide => Opcode::Div,
                ArithmeticOp::Modulo => Opcode::Mod,
                ArithmeticOp::Power => Opcode::Call,
            })
            &&& ins.operands@.len() == op.inputs@.len()
            &&& forall|k: int| 0 <= k < op.inputs@.len()
                ==> (#[trigger] ins.operands@[k]).operand_type == OperandType::Register
                    && ins.operands@[k].value@ == op.inputs@[k]@
            &&& (match (ins.result, op.outputs@.len()) {
                (Some(r), n) => n > 0 && r@ == op.outputs@[0]@,
                (None, n) => n == 0,
            })
            &&& ins.side_effects@.len() == 0
        },
        OperationType::Assignment { target } => {
            &&& ins.opcode == Opcode::Store
            &&& ins.operands@.len() == 2
            &&& ins.operands@[0].operand_type == OperandType::Register
            &&& (if op.inputs@.len() > 0 {
                ins.operands@[0].value@ == op.inputs@[0]@
            } else {
                ins.operands@[0].value@ == "unknown"@
            })
            &&& ins.operands@[1].operand_type == OperandType::Memory
            &&& ins.operands@[1].value@ == target@
            &&& ins.result is None
            &&& ins.side_effects@ == seq![SideEffect::ModifiesMemory]
        },
        OperationType::Input { .. } => {
            &&& ins.opcode == Opcode::Call
            &&& ins.operands@.len() == 1
            &&& ins.operands@[0].operand_type == OperandType::Label
            &&& ins.operands@[0].value@ == "input_function"@
            &&& (match (ins.result, op.outputs@.len()) {
                (Some(r), n) => n > 0 && r@ == op.outputs@[0]@,
                (None, n) => n == 0,
            })
            &&& ins.side_effects@ == seq![SideEffect::HasIO]
        },
        OperationType::Output { .. } => {
            &&& ins.opcode == Opcode::Call
            &&& ins.operands@.len() == 2
            &&& ins.operands@[0].operand_type == OperandType::Label
            &&& ins.operands@[0].value@ == "output_function"@
            &&& ins.operands@[1].operand_type == OperandType::Register
            &&& (if op.inputs@.len() > 0 {
                ins.operands@[1].value@ == op.inputs@[0]@
            } else {
                ins.operands@[1].value@ == "unknown"@
            })
            &&& ins.result is None
            &&& ins.side_effects@ == seq![SideEffect::HasIO]
        },
        _ => {
            &&& ins.opcode == Opcode::Call
            &&& ins.operands@.len() == 0
            &&& ins.result is None
            &&& ins.side_effects@.len() == 0
        },
    }
}

/// Flow analysis agent.
pub struct FlowAnalyzer {
    pub analyses_run: usize,
}

impl FlowAnalyzer {
    pub fn new() -> (r: FlowAnalyzer)
        ensures
            r.analyses_run == 0,
    {
        FlowAnalyzer { analyses_run: 0 }
    }

    fn find_operation<'a>(ops: &'a Vec<Operation>, id: usize) -> (r: Option<&'a Operation>)
        ensures
            match r {
                Some(op) => find_op(ops@, id, 0) matches Some(k) && *op == ops@[k],
                None => find_op(ops@, id, 0) is None,
            },
    {
        let mut k: usize = 0;
        while k < ops.len()
            invariant
                k <= ops@.len(),
                find_op(ops@, id, 0) == find_op(ops@, id, k as int),
            decreases ops@.len() - k,
        {
            if ops[k].id == id {
                return Some(&ops[k]);
            }
            k += 1;
        }
        None
    }

    fn operand_register(value: &String) -> (r: Operand)
        ensures
            r.operand_type == OperandType::Register,
            r.value@ == value@,
    {
        Operand {
            operand_type: OperandType::Register,
            value: value.clone(),
            data_type: String::from_str("i32"),
        }
    }

    fn make_instruction(op: &Operation, iid: InstrId) -> (r: Instruction)
        ensures
            instr_for_op(r, *op, iid),
    {
        match &op.operation_type {
            OperationType::Arithmetic { operator } => {
                let opcode = match operator {
                    ArithmeticOp::Add => Opcode::Add,
                    ArithmeticOp::Subtract => Opcode::Sub,
                    ArithmeticOp::Multiply => Opcode::Mul,
                    ArithmeticOp::Divide => Opcode::Div,
                    ArithmeticOp::Modulo => Opcode::Mod,
                    ArithmeticOp::Power => Opcode::Call,
                };
                let mut operands: Vec<Operand> = Vec::new();
                let mut k: usize = 0;
                while k < op.inputs.len()
                    invariant
                        k <= op.inputs@.len(),
                        operands@.len() == k,
                        forall|k2: int| 0 <= k2 < k
                            ==> (#[trigger] operands@[k2]).operand_type == OperandType::Register
                                && operands@[k2].value@ == op.inputs@[k2]@,
                    decreases op.inputs@.len() - k,
                {
                    operands.push(Self::operand_register(&op.inputs[k]));
                    k += 1;
                }
                let result = if op.outputs.len() > 0 {
                    Some(op.outputs[0].clone())
                } else {
                    None
                };
                Instruction {
                    id: iid,
                    opcode,
                    operands,
                    result,
                    side_effects: Vec::new(),
                }
            },
            OperationType::Assignment { target } => {
                let mut operands: Vec<Operand> = Vec::new();
                let source = if op.inputs.len() > 0 {
                    op.inputs[0].clone()
                } else {
                    String::from_str("unknown")
                };
                operands.push(Operand {
                    operand_type: OperandType::Register,
                    value: source,
                    data_type: String::from_str("i32"),
                });
                operands.push(Operand {
                    operand_type: OperandType::Memory,
                    value: target.clone(),
                    data_type: String::from_str("ptr"),
                });
                let r = Instruction {
                    id: iid,
                    opcode: Opcode::Store,
                    operands,
                    result: None,
                    side_effects: vec![SideEffect::ModifiesMemory],
                };
                proof {
                    assert(r.side_effects@ =~= seq![SideEffect::ModifiesMemory]);
                }
                r
            },
            OperationType::Input { .. } => {
                let mut operands: Vec<Operand> = Vec::new();
                operands.push(Operand {
                    operand_type: OperandType::Label,
                    value: String::from_str("input_function"),
                    data_type: String::from_str("function"),
                });
                let result = if op.outputs.len() > 0 {
                    Some(op.outputs[0].clone())
                } else {
                    None
                };
                let r = Instruction {
                    id: iid,
                    opcode: Opcode::Call,
                    operands,
                    result,
                    side_effects: vec![SideEffect::HasIO],
                };
                proof {
                    assert(r.side_effects@ =~= seq![SideEffect::HasIO]);
                }
                r
            },
            OperationType::Output { .. } => {
                let mut operands: Vec<Operand> = Vec::new();
                operands.push(Operand {
                    operand_type: OperandType::Label,
                    value: String::from_str("output_function"),
                    data_type: String::from_str("function"),
                });
                let source = if op.inputs.len() > 0 {
                    op.inputs[0].clone()
                } else {
                    String::from_str("unknown")
                };
                operands.push(Operand {
                    operand_type: OperandType::Register,
                    value: source,
                    data_type: String::from_str("i32"),
                });
                let r = Instruction {
                    id: iid,
                    opcode: Opcode::Call,
                    operands,
                    result: None,
                    side_effects: vec![SideEffect::HasIO],
                };
                proof {
                    assert(r.side_effects@ =~= seq![SideEffect::HasIO]);
                }
                r
            },
            _ => Instruction {
                id: iid,
                opcode: Opcode::Call,
                operands: Vec::new(),
                result: None,
                side_effects: Vec::new(),
            },
        }
    }

    /// Generate the flow instructions of one block: one per referenced
    /// operation id that resolves, in reference order, numbered by
    /// position.
    fn generate_instructions_for_block(
        &self,
        intent: &ProgramIntent,
        block_index: usize,
        operation_ids: &Vec<usize>,
    ) -> (r: Vec<Instruction>)
        ensures
            r@.len() == count_resolvable(intent.operations@, operation_ids@, operation_ids@.len() as int),
            forall|k: int| 0 <= k < operation_ids@.len()
                && find_op(intent.operations@, #[trigger] operation_ids@[k], 0) is Some
                ==> {
                    let pos = count_resolvable(intent.operations@, operation_ids@, k);
                    let oi = find_op(intent.operations@, operation_ids@[k], 0)->0;
                    &&& 0 <= pos < r@.len()
                    &&& r@[pos].id == (InstrId { block: block_index, index: pos as usize })
                    &&& instr_for_op(r@[pos], intent.operations@[oi], r@[pos].id)
                },
    {
        let mut out: Vec<Instruction> = Vec::new();
        let mut k: usize = 0;
        while k < operation_ids.len()
            invariant
                k <= operation_ids@.len(),
                out@.len() == count_resolvable(intent.operations@, operation_ids@, k as int),
                out@.len() <= k,
                forall|k2: int| 0 <= k2 < k
                    && find_op(intent.operations@, #[trigger] operation_ids@[k2], 0) is Some
                    ==> {
                        let pos = count_resolvable(intent.operations@, operation_ids@, k2);
                        let oi = find_op(intent.operations@, operation_ids@[k2], 0)->0;
                        &&& 0 <= pos < out@.len()
                        &&& out@[pos].id == (InstrId { block: block_index, index: pos as usize })
                        &&& instr_for_op(out@[pos], intent.operations@[oi], out@[pos].id)
                    },
            decreases operation_ids@.len() - k,
        {
            let ghost old_out = out@;
            match Self::find_operation(&intent.operations, operation_ids[k]) {
                Some(op) => {
                    let iid = InstrId { block: block_index, index: out.len() };
                    let ins = Self::make_instruction(op, iid);
                    out.push(ins);
                },
                None => {},
            }
            proof {
                assert forall|k2: int| 0 <= k2 < k + 1
                    && find_op(intent.operations@, #[trigger] operation_ids@[k2], 0) is Some
                    implies {
                        let pos = count_resolvable(intent.operations@, operation_ids@, k2);
                        let oi = find_op(intent.operations@, operation_ids@[k2], 0)->0;
                        &&& 0 <= pos < out@.len()
                        &&& out@[pos].id == (InstrId { block: block_index, index: pos as usize })
                        &&& instr_for_op(out@[pos], intent.operations@[oi], out@[pos].id)
                    } by {
                    let pos = count_resolvable(intent.operations@, operation_ids@, k2);
                    lemma_count_resolvable_mono(intent.operations@, operation_ids@, k2, k as int);
                    if k2 < k {
                        assert(count_resolvable(intent.operations@, operation_ids@, k2 + 1) == pos + 1);
                        lemma_count_resolvable_mono(intent.operations@, operation_ids@, k2 + 1, k as int);
                        assert(out@[pos] == old_out[pos]);
                    } else {
                        assert(out@[pos] == out@[old_out.len() as int]);
                    }
                }
            }
            k += 1;
        }
        out
    }

    /// Convert the intent-level control-flow graph into the block arena;
    /// node kinds map onto block kinds, and predecessor and successor
    /// lists are derived from the edges by position.
    pub fn build_control_flow_graph(&self, intent: &ProgramIntent) -> (r: Vec<ControlBlock>)
        ensures
            r@.len() == intent.control_flow.nodes@.len(),
            forall|b: int| 0 <= b < r@.len() ==> {
                &&& (#[trigger] r@[b]).id == intent.control_flow.nodes@[b].id
                &&& r@[b].block_type == spec_block_type(intent.control_flow.nodes@[b].node_type)
                &&& forall|p: int| 0 <= p < r@[b].predecessors@.len()
                    ==> #[trigger] r@[b].predecessors@[p] < r@.len()
                &&& forall|s: int| 0 <= s < r@[b].successors@.len()
                    ==> #[trigger] r@[b].successors@[s] < r@.len()
                &&& block_edges_ok(r@[b], intent.control_flow.nodes@, intent.control_flow.edges@,
                    intent.control_flow.nodes@[b].id)
            },
    {
        let nodes = &intent.control_flow.nodes;
        let edges = &intent.control_flow.edges;
        let n = nodes.len();
        let mut out: Vec<ControlBlock> = Vec::new();
        let mut b: usize = 0;
        while b < n
            invariant
                b <= n,
                n == intent.control_flow.nodes@.len(),
                nodes@ == intent.control_flow.nodes@,
                edges@ == intent.control_flow.edges@,
                out@.len() == b,
                forall|b2: int| 0 <= b2 < b ==> {
                    &&& (#[trigger] out@[b2]).id == intent.control_flow.nodes@[b2].id
                    &&& out@[b2].block_type == spec_block_type(intent.control_flow.nodes@[b2].node_type)
                    &&& forall|p: int| 0 <= p < out@[b2].predecessors@.len()
                        ==> #[trigger] out@[b2].predecessors@[p] < n
                    &&& forall|s: int| 0 <= s < out@[b2].successors@.len()
                        ==> #[trigger] out@[b2].successors@[s] < n
                    &&& block_edges_ok(out@[b2], intent.control_flow.nodes@, intent.control_flow.edges@,
                        intent.control_flow.nodes@[b2].id)
                },
            decreases n - b,
        {
            let node = &nodes[b];
            let block_type = match node.node_type {
                ControlFlowNodeType::Entry => ControlBlockType::Entry,
                ControlFlowNodeType::Exit => ControlBlockType::Exit,
                ControlFlowNodeType::BasicBlock => ControlBlockType::Basic,
                ControlFlowNodeType::Conditional => ControlBlockType::Conditional,
                ControlFlowNodeType::Loop => ControlBlockType::LoopHeader,
                ControlFlowNodeType::FunctionCall => ControlBlockType::Basic,
            };
            let instructions = self.generate_instructions_for_block(intent, b, &node.operations);
            // derive predecessor and successor indices from the edges
            let mut predecessors: Vec<usize> = Vec::new();
            let mut successors: Vec<usize> = Vec::new();
            let mut e: usize = 0;
            while e < edges.len()
                invariant
                    e <= edges@.len(),
                    b < n,
                    n == intent.control_flow.nodes@.len(),
                    nodes@ == intent.control_flow.nodes@,
                    edges@ == intent.control_flow.edges@,
                    *node == intent.control_flow.nodes@[b as int],
                    forall|p: int| 0 <= p < predecessors@.len()
                        ==> #[trigger] predecessors@[p] < n,
                    forall|s: int| 0 <= s < successors@.len()
                        ==> #[trigger] successors@[s] < n,
                    predecessors@.len() == count_pred_edges(nodes@, edges@, node.id, e as int),
                    forall|e2: int| 0 <= e2 < e && (#[trigger] edges@[e2]).to == node.id
                        && find_node(nodes@, edges@[e2].from, 0) is Some
                        ==> predecessors@[count_pred_edges(nodes@, edges@, node.id, e2)] as int
                            == find_node(nodes@, edges@[e2].from, 0)->0,
                    successors@.len() == count_succ_edges(nodes@, edges@, node.id, e as int),
                    forall|e2: int| 0 <= e2 < e && (#[trigger] edges@[e2]).from == node.id
                        && find_node(nodes@, edges@[e2].to, 0) is Some
                        ==> successors@[count_succ_edges(nodes@, edges@, node.id, e2)] as int
                            == find_node(nodes@, edges@[e2].to, 0)->0,
                decreases edges@.len() - e,
            {
                let ghost old_preds = predecessors@;
                let ghost old_succs = successors@;
                let edge = &edges[e];
                if edge.to == node.id {
                    if let Some(from_idx) = Self::find_node_index(nodes, edge.from) {
                        predecessors.push(from_idx);
                    }
                }
                if edge.from == node.id {
                    if let Some(to_idx) = Self::find_node_index(nodes, edge.to) {
                        successors.push(to_idx);
                    }
                }
                proof {
                    assert forall|e2: int| 0 <= e2 < e + 1 && (#[trigger] edges@[e2]).to == node.id
                        && find_node(nodes@, edges@[e2].from, 0) is Some
                        implies predecessors@[count_pred_edges(nodes@, edges@, node.id, e2)] as int
                            == find_node(nodes@, edges@[e2].from, 0)->0 by {
                        let pos = count_pred_edges(nodes@, edges@, node.id, e2);
                        lemma_count_edges_mono(nodes@, edges@, node.id, e2, e as int);
                        if e2 < e {
                            assert(count_pred_edges(nodes@, edges@, node.id, e2 + 1) == pos + 1);
                            lemma_count_edges_mono(nodes@, edges@, node.id, e2 + 1, e as int);
                            assert(predecessors@[pos] == old_preds[pos]);
                        } else {
                            assert(predecessors@[pos] == predecessors@[old_preds.len() as int]);
                        }
                    }
                    assert forall|e2: int| 0 <= e2 < e + 1 && (#[trigger] edges@[e2]).from == node.id
                        && find_node(nodes@, edges@[e2].to, 0) is Some
                        implies successors@[count_succ_edges(nodes@, edges@, node.id, e2)] as int
                            == find_node(nodes@, edges@[e2].to, 0)->0 by {
                        let pos = count_succ_edges(nodes@, edges@, node.id, e2);
                        lemma_count_edges_mono(nodes@, edges@, node.id, e2, e as int);
                        if e2 < e {
                            assert(count_succ_edges(nodes@, edges@, node.id, e2 + 1) == pos + 1);
                            lemma_count_edges_mono(nodes@, edges@, node.id, e2 + 1, e as int);
                            assert(successors@[pos] == old_succs[pos]);
                        } else {
                            assert(successors@[pos] == successors@[old_succs.len() as int]);
                        }
                    }
                }
                e += 1;
            }
            out.push(ControlBlock {
                id: node.id,
                block_type,
                predecessors,
                successors,
                instructions,
                dominates: Vec::new(),
                dominated_by: Vec::new(),
            });
            b += 1;
        }
        out
    }

    /// The index of the first node with the given id.
    fn find_node_index(nodes: &Vec<crate::intent_extractor::ControlFlowNode>, id: usize) -> (r: Option<usize>)
        ensures
            match r {
                Some(k) => Some(k as int) == find_node(nodes@, id, 0)
                    && k < nodes@.len() && nodes@[k as int].id == id,
                None => find_node(nodes@, id, 0) is None,
            },
    {
        let mut k: usize = 0;
        while k < nodes.len()
            invariant
                k <= nodes@.len(),
                find_node(nodes@, id, 0) == find_node(nodes@, id, k as int),
            decreases nodes@.len() - k,
        {
            if nodes[k].id == id {
                return Some(k);
            }
            k += 1;
        }
        None
    }
}

/// The block kind each intent-level node kind maps onto.
pub open spec fn spec_block_type(t: ControlFlowNodeType) -> ControlBlockType {
    match t {
        ControlFlowNodeType::Entry => ControlBlockType::Entry,
        ControlFlowNodeType::Exit => ControlBlockType::Exit,
        ControlFlowNodeType::BasicBlock => ControlBlockType::Basic,
        ControlFlowNodeType::Conditional => ControlBlockType::Conditional,
        ControlFlowNodeType::Loop => ControlBlockType::LoopHeader,
        ControlFlowNodeType::FunctionCall => ControlBlockType::Basic,
    }
}

/// Well-formed dominator matrix: one row of `n` bits per block.
pub open spec fn dom_wf(dom: Seq<Seq<bool>>, n: int) -> bool {
    &&& dom.len() == n
    &&& forall|b: int| 0 <= b < n ==> (#[trigger] dom[b]).len() == n
}

pub open spec fn is_entry_block(blocks: Seq<ControlBlock>, b: int) -> bool {
    blocks[b].block_type == ControlBlockType::Entry
}

/// Number of entry blocks among the first `upto`.
pub open spec fn count_entry_blocks(blocks: Seq<ControlBlock>, upto: int) -> int
    decreases upto,
{
    if upto <= 0 {
        0
    } else {
        count_entry_blocks(blocks, upto - 1) + if blocks[upto - 1].block_type == ControlBlockType::Entry {
            1int
        } else {
            0int
        }
    }
}

/// A single-entry graph in which the entry is the only source: exactly one
/// entry block, and every other block has at least one predecessor.
pub open spec fn single_entry_rooted(blocks: Seq<ControlBlock>) -> bool {
    &&& count_entry_blocks(blocks, blocks.len() as int) == 1
    &&& forall|b: int| 0 <= b < blocks.len() && !is_entry_block(blocks, b)
        ==> (#[trigger] blocks[b]).predecessors@.len() > 0
}

/// Arenas with matching block kinds have matching entry counts.
pub proof fn lemma_entry_counts_agree(a: Seq<ControlBlock>, b: Seq<ControlBlock>, upto: int)
    requires
        a.len() == b.len(),
        forall|i: int| 0 <= i < a.len() ==> (#[trigger] a[i]).block_type == b[i].block_type,
        upto <= a.len(),
    ensures
        count_entry_blocks(a, upto) == count_entry_blocks(b, upto),
    decreases upto,
{
    if upto > 0 {
        lemma_entry_counts_agree(a, b, upto - 1);
    }
}

/// Two distinct entry blocks force the entry count above one.
pub proof fn lemma_two_entries_exceed_count(blocks: Seq<ControlBlock>, a: int, e: int)
    requires
        0 <= a < blocks.len(),
        0 <= e < blocks.len(),
        a != e,
        is_entry_block(blocks, a),
        is_entry_block(blocks, e),
    ensures
        count_entry_blocks(blocks, blocks.len() as int) >= 2,
{
    let lo = if a < e { a } else { e };
    let hi = if a < e { e } else { a };
    lemma_two_entry_count(blocks, lo, hi, blocks.len() as int);
}

proof fn lemma_two_entry_count(blocks: Seq<ControlBlock>, lo: int, hi: int, upto: int)
    requires
        0 <= lo < hi,
        is_entry_block(blocks, lo),
        is_entry_block(blocks, hi),
        upto >= 0,
    ensures
        count_entry_blocks(blocks, upto)
            >= (if lo < upto { 1int } else { 0int }) + (if hi < upto { 1int } else { 0int }),
    decreases upto,
{
    if upto > 0 {
        lemma_two_entry_count(blocks, lo, hi, upto - 1);
    }
}

/// Every listed predecessor is a real edge source: the arena's
/// predecessor lists are consistent with its successor lists.
pub open spec fn preds_consistent(blocks: Seq<ControlBlock>) -> bool {
    forall|b: int, k: int| 0 <= b < blocks.len() && 0 <= k < blocks[b].predecessors@.len()
        ==> (#[trigger] blocks[b].predecessors@[k]) < blocks.len()
            && has_edge(blocks, blocks[b].predecessors@[k] as int, b)
}

/// The shape under which the computed dominator sets are complete for
/// path dominance: one entry, every other block has a predecessor, and
/// predecessor lists agree with the edges.
pub open spec fn dominance_input_ok(blocks: Seq<ControlBlock>) -> bool {
    single_entry_rooted(blocks) && preds_consistent(blocks)
}

/// Only a block itself dominates it when it is its own path target of the
/// one-block path.
pub proof fn lemma_dominates_self_only(blocks: Seq<ControlBlock>, e: int, x: int)
    requires
        0 <= e < blocks.len(),
        spec_dominates(blocks, e, x, e),
    ensures
        x == e,
{
    let p = seq![e];
    assert(is_path(blocks, p, e, e)) by {
        assert(p[0] == e);
        assert(p.last() == e);
    }
    assert(p.contains(x));
    let m = choose|m: int| 0 <= m < p.len() && p[m] == x;
    assert(p[m] == e);
}

/// A dominator of a block, other than the block itself, dominates each of
/// the block's edge predecessors.
pub proof fn lemma_dominates_pred(blocks: Seq<ControlBlock>, e: int, x: int, p: int, b: int)
    requires
        0 <= b < blocks.len(),
        0 <= p < blocks.len(),
        spec_dominates(blocks, e, x, b),
        has_edge(blocks, p, b),
        x != b,
    ensures
        spec_dominates(blocks, e, x, p),
{
    assert forall|q: Seq<int>| is_path(blocks, q, e, p) implies #[trigger] q.contains(x) by {
        let q2 = q.push(b);
        assert(is_path(blocks, q2, e, b)) by {
            assert(q2[0] == q[0]);
            assert(q2.last() == b);
            assert forall|i: int| 0 <= i < q2.len() implies 0 <= #[trigger] q2[i] < blocks.len() by {
                if i < q.len() {
                    assert(q2[i] == q[i]);
                }
            }
            assert forall|i: int| 0 <= i < q2.len() - 1
                implies has_edge(blocks, #[trigger] q2[i], q2[i + 1]) by {
                if i < q.len() - 1 {
                    assert(q2[i] == q[i] && q2[i + 1] == q[i + 1]);
                } else {
                    assert(q2[i] == q.last() && q2[i + 1] == b);
                }
            }
        }
        assert(q2.contains(x));
        let m = choose|m: int| 0 <= m < q2.len() && q2[m] == x;
        if m < q.len() {
            assert(q[m] == x);
        }
    }
}

/// The intersection of the first `p` predecessors' dominator rows at
/// position `x`.
pub open spec fn inter_sem(dom: Seq<Vec<bool>>, preds: Seq<usize>, p: int, x: int) -> bool {
    forall|pi: int| 0 <= pi < p ==> dom[(#[trigger] preds[pi]) as int]@[x]
}

/// Completeness of a dominator matrix against path dominance: whatever
/// dominates a block sits in its set.
pub open spec fn dom_complete(dom: Seq<Vec<bool>>, blocks: Seq<ControlBlock>) -> bool {
    forall|e: int, b2: int, x: int| 0 <= e < blocks.len() && 0 <= b2 < blocks.len()
        && 0 <= x < blocks.len() && is_entry_block(blocks, e)
        && #[trigger] spec_dominates(blocks, e, x, b2)
        ==> #[trigger] dom[b2]@[x]
}

/// Matching blocks carry matching edges.
proof fn lemma_has_edge_transfer(a: Seq<ControlBlock>, b: Seq<ControlBlock>, i: int, j: int)
    requires
        a.len() == b.len(),
        forall|i2: int| 0 <= i2 < a.len() ==> (#[trigger] a[i2]).successors == b[i2].successors,
        0 <= i < a.len(),
        has_edge(a, i, j),
    ensures
        has_edge(b, i, j),
{
    let s = choose|s: int| 0 <= s < a[i].successors@.len()
        && (#[trigger] a[i].successors@[s]) as int == j;
    assert(b[i].successors@[s] as int == j);
}

/// Matching blocks carry matching paths.
proof fn lemma_path_transfer(
    a: Seq<ControlBlock>,
    b: Seq<ControlBlock>,
    p: Seq<int>,
    from: int,
    to: int,
)
    requires
        a.len() == b.len(),
        forall|i2: int| 0 <= i2 < a.len() ==> (#[trigger] a[i2]).successors == b[i2].successors,
        is_path(a, p, from, to),
    ensures
        is_path(b, p, from, to),
{
    assert forall|i: int| 0 <= i < p.len() - 1
        implies has_edge(b, #[trigger] p[i], p[i + 1]) by {
        assert(has_edge(a, p[i], p[i + 1]));
        lemma_has_edge_transfer(a, b, p[i], p[i + 1]);
    }
}

/// Matching blocks carry matching dominance facts.
proof fn lemma_dominates_transfer_one(
    a: Seq<ControlBlock>,
    b: Seq<ControlBlock>,
    e: int,
    x: int,
    b2: int,
)
    requires
        a.len() == b.len(),
        forall|i2: int| 0 <= i2 < a.len() ==> (#[trigger] a[i2]).successors == b[i2].successors,
        spec_dominates(a, e, x, b2),
    ensures
        spec_dominates(b, e, x, b2),
{
    assert forall|p: Seq<int>| is_path(b, p, e, b2) implies #[trigger] p.contains(x) by {
        assert forall|i2: int| 0 <= i2 < b.len()
            implies (#[trigger] b[i2]).successors == a[i2].successors by {}
        lemma_path_transfer(b, a, p, e, b2);
        assert(is_path(a, p, e, b2));
    }
}

/// Arenas whose blocks agree in successor lists, predecessor lists, and
/// kinds carry the same dominance facts and dominance preconditions.
pub proof fn lemma_graph_facts_transfer(a: Seq<ControlBlock>, b: Seq<ControlBlock>)
    requires
        a.len() == b.len(),
        forall|i: int| 0 <= i < a.len() ==> (#[trigger] a[i]).successors == b[i].successors
            && a[i].predecessors == b[i].predecessors
            && a[i].block_type == b[i].block_type,
    ensures
        forall|e: int, x: int, b2: int| #[trigger] spec_dominates(a, e, x, b2)
            == spec_dominates(b, e, x, b2),
        dominance_input_ok(a) == dominance_input_ok(b),
{
    assert forall|e: int, x: int, b2: int| #[trigger] spec_dominates(a, e, x, b2)
        == spec_dominates(b, e, x, b2) by {
        if spec_dominates(a, e, x, b2) {
            lemma_dominates_transfer_one(a, b, e, x, b2);
        }
        if spec_dominates(b, e, x, b2) {
            assert forall|i2: int| 0 <= i2 < b.len()
                implies (#[trigger] b[i2]).successors == a[i2].successors by {}
            lemma_dominates_transfer_one(b, a, e, x, b2);
        }
    }
    lemma_entry_counts_agree(a, b, a.len() as int);
    assert(single_entry_rooted(a) == single_entry_rooted(b)) by {
        if single_entry_rooted(a) {
            assert forall|b2: int| 0 <= b2 < b.len() && !is_entry_block(b, b2)
                implies (#[trigger] b[b2]).predecessors@.len() > 0 by {
                assert(!is_entry_block(a, b2));
            }
        }
        if single_entry_rooted(b) {
            assert forall|b2: int| 0 <= b2 < a.len() && !is_entry_block(a, b2)
                implies (#[trigger] a[b2]).predecessors@.len() > 0 by {
                assert(!is_entry_block(b, b2));
            }
        }
    }
    assert(preds_consistent(a) == preds_consistent(b)) by {
        if preds_consistent(a) {
            assert forall|b2: int, k: int| 0 <= b2 < b.len()
                && 0 <= k < b[b2].predecessors@.len()
                implies (#[trigger] b[b2].predecessors@[k]) < b.len()
                    && has_edge(b, b[b2].predecessors@[k] as int, b2) by {
                assert(a[b2].predecessors@[k] == b[b2].predecessors@[k]);
                assert(has_edge(a, a[b2].predecessors@[k] as int, b2));
                lemma_has_edge_transfer(a, b, a[b2].predecessors@[k] as int, b2);
            }
        }
        if preds_consistent(b) {
            assert forall|b2: int, k: int| 0 <= b2 < a.len()
                && 0 <= k < a[b2].predecessors@.len()
                implies (#[trigger] a[b2].predecessors@[k]) < a.len()
                    && has_edge(a, a[b2].predecessors@[k] as int, b2) by {
                assert(b[b2].predecessors@[k] == a[b2].predecessors@[k]);
                assert(has_edge(b, b[b2].predecessors@[k] as int, b2));
                assert forall|i2: int| 0 <= i2 < b.len()
                    implies (#[trigger] b[i2]).successors == a[i2].successors by {}
                lemma_has_edge_transfer(b, a, b[b2].predecessors@[k] as int, b2);
            }
        }
    }
}

/// Block indices referenced by predecessor and successor lists stay in
/// range.
pub open spec fn blocks_wf(blocks: Seq<ControlBlock>) -> bool {
    forall|b: int| 0 <= b < blocks.len() ==> {
        &&& forall|p: int| 0 <= p < (#[trigger] blocks[b]).predecessors@.len()
            ==> #[trigger] blocks[b].predecessors@[p] < blocks.len()
        &&& forall|s: int| 0 <= s < blocks[b].successors@.len()
            ==> #[trigger] blocks[b].successors@[s] < blocks.len()
    }
}

/// There is an edge from block `a` to block `b`.
pub open spec fn has_edge(blocks: Seq<ControlBlock>, a: int, b: int) -> bool {
    exists|s: int| 0 <= s < blocks[a].successors@.len()
        && (#[trigger] blocks[a].successors@[s]) as int == b
}

/// A path through the arena: a nonempty index sequence following
/// successor edges from `from` to `to`.
pub open spec fn is_path(blocks: Seq<ControlBlock>, p: Seq<int>, from: int, to: int) -> bool {
    &&& p.len() >= 1
    &&& p[0] == from
    &&& p.last() == to
    &&& forall|i: int| 0 <= i < p.len() ==> 0 <= #[trigger] p[i] < blocks.len()
    &&& forall|i: int| 0 <= i < p.len() - 1 ==> has_edge(blocks, #[trigger] p[i], p[i + 1])
}

/// Block `a` dominates block `b`: every path from the entry to `b` passes
/// through `a`.
pub open spec fn spec_dominates(blocks: Seq<ControlBlock>, entry: int, a: int, b: int) -> bool {
    forall|p: Seq<int>| is_path(blocks, p, entry, b) ==> #[trigger] p.contains(a)
}

/// Dominance is transitive: if `a` dominates `b` and `b` dominates `c`,
/// then `a` dominates `c`. Any path from the entry to `c` passes through
/// `b`; its prefix up to `b` is a path to `b` and so passes through `a`.
pub proof fn lemma_dominance_transitive(blocks: Seq<ControlBlock>, entry: int, a: int, b: int, c: int)
    requires
        spec_dominates(blocks, entry, a, b),
        spec_dominates(blocks, entry, b, c),
    ensures
        spec_dominates(blocks, entry, a, c),
{
    assert forall|p: Seq<int>| is_path(blocks, p, entry, c) implies #[trigger] p.contains(a) by {
        assert(p.contains(b));
        let i = choose|i: int| 0 <= i < p.len() && p[i] == b;
        let prefix = p.subrange(0, i + 1);
        assert(prefix[0] == p[0]);
        assert(prefix.last() == p[i]);
        assert forall|k: int| 0 <= k < prefix.len() - 1
            implies has_edge(blocks, #[trigger] prefix[k], prefix[k + 1]) by {
            assert(prefix[k] == p[k] && prefix[k + 1] == p[k + 1]);
        }
        assert(is_path(blocks, prefix, entry, b));
        assert(prefix.contains(a));
        let j = choose|j: int| 0 <= j < prefix.len() && prefix[j] == a;
        assert(p[j] == a);
        assert(p.contains(a));
    }
}

/// A block dominates itself.
pub proof fn lemma_dominance_reflexive(blocks: Seq<ControlBlock>, entry: int, a: int)
    ensures
        spec_dominates(blocks, entry, a, a),
{
    assert forall|p: Seq<int>| is_path(blocks, p, entry, a) implies #[trigger] p.contains(a) by {
        assert(p.last() == a);
        assert(p[p.len() - 1] == a);
    }
}

impl FlowAnalyzer {
    fn unit_row(n: usize, b: usize) -> (r: Vec<bool>)
        ensures
            r@.len() == n,
            forall|x: int| 0 <= x < n ==> #[trigger] r@[x] == (x == b),
    {
        let mut r: Vec<bool> = Vec::new();
        let mut x: usize = 0;
        while x < n
            invariant
                x <= n,
                r@.len() == x,
                forall|x2: int| 0 <= x2 < x ==> #[trigger] r@[x2] == (x2 == b),
            decreases n - x,
        {
            r.push(x == b);
            x += 1;
        }
        r
    }

    fn full_row(n: usize) -> (r: Vec<bool>)
        ensures
            r@.len() == n,
            forall|x: int| 0 <= x < n ==> #[trigger] r@[x],
    {
        let mut r: Vec<bool> = Vec::new();
        let mut x: usize = 0;
        while x < n
            invariant
                x <= n,
                r@.len() == x,
                forall|x2: int| 0 <= x2 < x ==> #[trigger] r@[x2],
            decreases n - x,
        {
            r.push(true);
            x += 1;
        }
        r
    }

    fn rows_equal(a: &Vec<bool>, b: &Vec<bool>) -> (r: bool)
        requires
            a@.len() == b@.len(),
        ensures
            r == (a@ =~= b@),
    {
        let mut x: usize = 0;
        while x < a.len()
            invariant
                x <= a@.len(),
                a@.len() == b@.len(),
                forall|x2: int| 0 <= x2 < x ==> #[trigger] a@[x2] == b@[x2],
            decreases a@.len() - x,
        {
            if a[x] != b[x] {
                return false;
            }
            x += 1;
        }
        true
    }

    /// Dominance by classic iterative fixpoint over predecessor sets: the
    /// entry's dominator set is exactly itself; every other set starts at
    /// the universe and is refined to itself plus the intersection of its
    /// predecessors' sets until no set changes (bounded by a generous pass
    /// budget). Every block dominates itself, and an entry block's set
    /// holds nothing but the entry.
    pub fn analyze_dominance(&self, blocks: &Vec<ControlBlock>) -> (r: Vec<Vec<bool>>)
        requires
            blocks_wf(blocks@),
        ensures
            dom_wf(r@.map_values(|row: Vec<bool>| row@), blocks@.len() as int),
            forall|b: int| 0 <= b < blocks@.len() && is_entry_block(blocks@, b)
                ==> forall|x: int| 0 <= x < blocks@.len()
                    ==> #[trigger] r@[b]@[x] == (x == b),
            forall|b: int| 0 <= b < blocks@.len() ==> #[trigger] r@[b]@[b],
            single_entry_rooted(blocks@)
                ==> forall|b: int, e: int| 0 <= b < blocks@.len() && 0 <= e < blocks@.len()
                    && is_entry_block(blocks@, e)
                    ==> #[trigger] r@[b]@[e],
            dominance_input_ok(blocks@) ==> dom_complete(r@, blocks@),
    {
        let n = blocks.len();
        let mut dom: Vec<Vec<bool>> = Vec::new();
        let mut b: usize = 0;
        while b < n
            invariant
                b <= n,
                n == blocks@.len(),
                blocks_wf(blocks@),
                dom@.len() == b,
                forall|b2: int| 0 <= b2 < b ==> (#[trigger] dom@[b2])@.len() == n,
                forall|b2: int| 0 <= b2 < b && is_entry_block(blocks@, b2)
                    ==> forall|x: int| 0 <= x < n ==> #[trigger] dom@[b2]@[x] == (x == b2),
                forall|b2: int| 0 <= b2 < b ==> #[trigger] dom@[b2]@[b2],
                single_entry_rooted(blocks@)
                    ==> forall|b2: int, e: int| 0 <= b2 < b && 0 <= e < n
                        && is_entry_block(blocks@, e)
                        ==> #[trigger] dom@[b2]@[e],
                dominance_input_ok(blocks@)
                    ==> forall|e: int, b2: int, x: int| 0 <= e < n && 0 <= b2 < b && 0 <= x < n
                        && is_entry_block(blocks@, e)
                        && #[trigger] spec_dominates(blocks@, e, x, b2)
                        ==> #[trigger] dom@[b2]@[x],
            decreases n - b,
        {
            let is_entry = match blocks[b].block_type {
                ControlBlockType::Entry => true,
                _ => false,
            };
            if is_entry {
                dom.push(Self::unit_row(n, b));
                proof {
                    if single_entry_rooted(blocks@) {
                        assert forall|e: int| 0 <= e < n && is_entry_block(blocks@, e)
                            implies #[trigger] dom@[b as int]@[e] by {
                            if e != b {
                                lemma_two_entries_exceed_count(blocks@, b as int, e);
                            }
                        }
                    }
                    if dominance_input_ok(blocks@) {
                        assert forall|e: int, x: int| 0 <= e < n && 0 <= x < n
                            && is_entry_block(blocks@, e)
                            && #[trigger] spec_dominates(blocks@, e, x, b as int)
                            implies dom@[b as int]@[x] by {
                            if e != b {
                                lemma_two_entries_exceed_count(blocks@, b as int, e);
                            }
                            lemma_dominates_self_only(blocks@, b as int, x);
                        }
                    }
                }
            } else {
                dom.push(Self::full_row(n));
            }
            b += 1;
        }
        let mut changed = true;
        let mut fuel: usize = if n < 65000 {
            proof {
                assert(n * n + 2 <= 4294967295) by (nonlinear_arith)
                    requires n < 65000;
            }
            n * n + 2
        } else {
            usize::MAX
        };
        while changed && fuel > 0
            invariant
                n == blocks@.len(),
                blocks_wf(blocks@),
                dom@.len() == n,
                forall|b2: int| 0 <= b2 < n ==> (#[trigger] dom@[b2])@.len() == n,
                forall|b2: int| 0 <= b2 < n && is_entry_block(blocks@, b2)
                    ==> forall|x: int| 0 <= x < n ==> #[trigger] dom@[b2]@[x] == (x == b2),
                forall|b2: int| 0 <= b2 < n ==> #[trigger] dom@[b2]@[b2],
                single_entry_rooted(blocks@)
                    ==> forall|b2: int, e: int| 0 <= b2 < n && 0 <= e < n
                        && is_entry_block(blocks@, e)
                        ==> #[trigger] dom@[b2]@[e],
                dominance_input_ok(blocks@) ==> dom_complete(dom@, blocks@),
            decreases fuel,
        {
            changed = false;
            fuel -= 1;
            let mut bi: usize = 0;
            while bi < n
                invariant
                    bi <= n,
                    n == blocks@.len(),
                    blocks_wf(blocks@),
                    dom@.len() == n,
                    forall|b2: int| 0 <= b2 < n ==> (#[trigger] dom@[b2])@.len() == n,
                    forall|b2: int| 0 <= b2 < n && is_entry_block(blocks@, b2)
                        ==> forall|x: int| 0 <= x < n ==> #[trigger] dom@[b2]@[x] == (x == b2),
                    forall|b2: int| 0 <= b2 < n ==> #[trigger] dom@[b2]@[b2],
                    single_entry_rooted(blocks@)
                        ==> forall|b2: int, e: int| 0 <= b2 < n && 0 <= e < n
                            && is_entry_block(blocks@, e)
                            ==> #[trigger] dom@[b2]@[e],
                    dominance_input_ok(blocks@) ==> dom_complete(dom@, blocks@),
                decreases n - bi,
            {
                let is_entry = match blocks[bi].block_type {
                    ControlBlockType::Entry => true,
                    _ => false,
                };
                if !is_entry {
                    let preds = &blocks[bi].predecessors;
                    let mut new_row: Vec<bool> = if preds.len() > 0 {
                        let first = preds[0];
                        let mut inter: Vec<bool> = Vec::new();
                        let mut x: usize = 0;
                        while x < n
                            invariant
                                x <= n,
                                n == blocks@.len(),
                                dom@.len() == n,
                                forall|b2: int| 0 <= b2 < n ==> (#[trigger] dom@[b2])@.len() == n,
                                first < n,
                                inter@.len() == x,
                                forall|x2: int| 0 <= x2 < x
                                    ==> #[trigger] inter@[x2] == dom@[first as int]@[x2],
                                single_entry_rooted(blocks@)
                                    ==> forall|b2: int, e: int| 0 <= b2 < n && 0 <= e < n
                                        && is_entry_block(blocks@, e)
                                        ==> #[trigger] dom@[b2]@[e],
                            decreases n - x,
                        {
                            inter.push(dom[first][x]);
                            x += 1;
                        }
                        proof {
                            assert(preds@[0] == first);
                            assert forall|x2: int| 0 <= x2 < n
                                implies #[trigger] inter@[x2]
                                    == inter_sem(dom@, preds@, 1, x2) by {}
                        }
                        let mut p: usize = 1;
                        while p < preds.len()
                            invariant
                                1 <= p <= preds@.len(),
                                n == blocks@.len(),
                                blocks_wf(blocks@),
                                bi < n,
                                preds@ == blocks@[bi as int].predecessors@,
                                dom@.len() == n,
                                forall|b2: int| 0 <= b2 < n ==> (#[trigger] dom@[b2])@.len() == n,
                                inter@.len() == n,
                                forall|x2: int| 0 <= x2 < n
                                    ==> #[trigger] inter@[x2] == inter_sem(dom@, preds@, p as int, x2),
                                single_entry_rooted(blocks@)
                                    ==> forall|b2: int, e: int| 0 <= b2 < n && 0 <= e < n
                                        && is_entry_block(blocks@, e)
                                        ==> #[trigger] dom@[b2]@[e],
                            decreases preds@.len() - p,
                        {
                            let pb = preds[p];
                            let ghost inter_before = inter@;
                            let mut x2: usize = 0;
                            while x2 < n
                                invariant
                                    x2 <= n,
                                    n == blocks@.len(),
                                    pb < n,
                                    pb == preds@[p as int],
                                    dom@.len() == n,
                                    forall|b2: int| 0 <= b2 < n ==> (#[trigger] dom@[b2])@.len() == n,
                                    inter@.len() == n,
                                    forall|x3: int| 0 <= x3 < x2
                                        ==> #[trigger] inter@[x3]
                                            == (inter_before[x3] && dom@[pb as int]@[x3]),
                                    forall|x3: int| x2 <= x3 < n
                                        ==> #[trigger] inter@[x3] == inter_before[x3],
                                decreases n - x2,
                            {
                                let keep = inter[x2] && dom[pb][x2];
                                inter.set(x2, keep);
                                x2 += 1;
                            }
                            proof {
                                assert forall|x3: int| 0 <= x3 < n
                                    implies #[trigger] inter@[x3]
                                        == inter_sem(dom@, preds@, p + 1, x3) by {
                                    assert(inter_before[x3] == inter_sem(dom@, preds@, p as int, x3));
                                    assert forall|pi: int| 0 <= pi < p + 1
                                        && inter_before[x3] && dom@[pb as int]@[x3]
                                        implies dom@[(#[trigger] preds@[pi]) as int]@[x3] by {
                                        if pi < p {
                                            assert(inter_sem(dom@, preds@, p as int, x3));
                                        }
                                    }
                                    if inter@[x3] {
                                        assert(inter_sem(dom@, preds@, p + 1, x3));
                                    } else {
                                        if inter_sem(dom@, preds@, p + 1, x3) {
                                            assert(dom@[preds@[p as int] as int]@[x3]);
                                            assert(inter_sem(dom@, preds@, p as int, x3)) by {
                                                assert forall|pi: int| 0 <= pi < p
                                                    implies dom@[(#[trigger] preds@[pi]) as int]@[x3] by {
                                                    assert(inter_sem(dom@, preds@, p + 1, x3));
                                                }
                                            }
                                        }
                                    }
                                }
                            }
                            p += 1;
                        }
                        inter
                    } else {
                        Self::unit_row(n, bi)
                    };
                    if new_row.len() == n {
                        new_row.set(bi, true);
                        proof {
                            if single_entry_rooted(blocks@) {
                                assert(blocks@[bi as int].predecessors@.len() > 0);
                                assert forall|e: int| 0 <= e < n && is_entry_block(blocks@, e)
                                    implies #[trigger] new_row@[e] by {}
                            }
                        }
                        let ghost dom_before = dom@;
                        if !Self::rows_equal(&dom[bi], &new_row) {
                            changed = true;
                        }
                        dom.set(bi, new_row);
                        proof {
                            if dominance_input_ok(blocks@) {
                                let preds = blocks@[bi as int].predecessors@;
                                assert(preds.len() > 0);
                                assert forall|e: int, b2: int, x: int| 0 <= e < n && 0 <= b2 < n
                                    && 0 <= x < n && is_entry_block(blocks@, e)
                                    && #[trigger] spec_dominates(blocks@, e, x, b2)
                                    implies #[trigger] dom@[b2]@[x] by {
                                    if b2 != bi {
                                        assert(dom@[b2] == dom_before[b2]);
                                        assert(dom_before[b2]@[x]);
                                    } else if x == bi {
                                        assert(dom@[bi as int]@[x]);
                                    } else {
                                        assert forall|pi: int| 0 <= pi < preds.len()
                                            implies dom_before[(#[trigger] preds[pi]) as int]@[x] by {
                                            let pr = preds[pi] as int;
                                            assert(has_edge(blocks@, pr, bi as int));
                                            lemma_dominates_pred(blocks@, e, x, pr, bi as int);
                                            assert(spec_dominates(blocks@, e, x, pr));
                                        }
                                        assert(inter_sem(dom_before, preds, preds.len() as int, x));
                                        assert(dom@[bi as int]@[x]);
                                    }
                                }
                            }
                        }
                    }
                }
                bi += 1;
            }
        }
        proof {
            let mapped = dom@.map_values(|row: Vec<bool>| row@);
            assert(mapped.len() == n);
            assert forall|b2: int| 0 <= b2 < n
                implies (#[trigger] mapped[b2]).len() == n by {
                assert(mapped[b2] == dom@[b2]@);
            }
        }
        dom
    }

    /// The indices whose bit is set in a row.
    fn row_indices(row: &Vec<bool>) -> (r: Vec<usize>)
        ensures
            forall|k: int| 0 <= k < r@.len() ==> (#[trigger] r@[k]) < row@.len() && row@[r@[k] as int],
            forall|x: int| 0 <= x < row@.len() && row@[x] ==> r@.contains(x as usize),
    {
        let mut out: Vec<usize> = Vec::new();
        let mut x: usize = 0;
        while x < row.len()
            invariant
                x <= row@.len(),
                forall|k: int| 0 <= k < out@.len()
                    ==> (#[trigger] out@[k]) < row@.len() && row@[out@[k] as int],
                forall|x2: int| 0 <= x2 < x && row@[x2] ==> out@.contains(x2 as usize),
            decreases row@.len() - x,
        {
            let ghost before = out@;
            if row[x] {
                out.push(x);
                proof {
                    assert(out@[out@.len() - 1] == x as usize);
                    assert forall|x2: int| 0 <= x2 < x + 1 && row@[x2]
                        implies out@.contains(x2 as usize) by {
                        if x2 < x {
                            let k0 = choose|k0: int| 0 <= k0 < before.len() && before[k0] == x2 as usize;
                            assert(out@[k0] == x2 as usize);
                        } else {
                            assert(out@[out@.len() - 1] == x2 as usize);
                        }
                    }
                }
            }
            x += 1;
        }
        out
    }

    /// Membership test over an index list.
    fn contains_index(v: &Vec<usize>, x: usize) -> (r: bool)
        ensures
            r == v@.contains(x),
    {
        let mut k: usize = 0;
        while k < v.len()
            invariant
                k <= v@.len(),
                forall|k2: int| 0 <= k2 < k ==> #[trigger] v@[k2] != x,
            decreases v@.len() - k,
        {
            if v[k] == x {
                proof {
                    assert(v@[k as int] == x);
                }
                return true;
            }
            k += 1;
        }
        false
    }

    /// Detect natural loops: for every back edge, an edge whose target
    /// dominates its source, grow the loop body backward from the latch,
    /// stopping at the header; exits are successors of body blocks that
    /// fall outside the body. Every reported loop satisfies the natural
    /// loop invariant: the header and latch lie in the body, the back
    /// edge latch-to-header is a real edge, and the header dominates the
    /// latch in the computed dominator sets.
    pub fn analyze_loops(&self, blocks: &Vec<ControlBlock>, dom: &Vec<Vec<bool>>) -> (r: Vec<NaturalLoop>)
        requires
            blocks_wf(blocks@),
            dom@.len() == blocks@.len(),
            forall|b: int| 0 <= b < dom@.len() ==> (#[trigger] dom@[b])@.len() == blocks@.len(),
        ensures
            forall|k: int| 0 <= k < r@.len() ==> natural_loop_ok(#[trigger] r@[k], blocks@, dom@),
            forall|b: int, s: int| 0 <= b < blocks@.len()
                && 0 <= s < (#[trigger] blocks@[b].successors@[s]) as int + blocks@[b].successors@.len()
                && s < blocks@[b].successors@.len()
                && dom@[b]@[blocks@[b].successors@[s] as int]
                ==> has_loop_for(r@, b, blocks@[b].successors@[s] as int),
    {
        let n = blocks.len();
        let mut out: Vec<NaturalLoop> = Vec::new();
        let mut b: usize = 0;
        while b < n
            invariant
                b <= n,
                n == blocks@.len(),
                blocks_wf(blocks@),
                dom@.len() == n,
                forall|b2: int| 0 <= b2 < dom@.len() ==> (#[trigger] dom@[b2])@.len() == n,
                forall|k: int| 0 <= k < out@.len() ==> natural_loop_ok(#[trigger] out@[k], blocks@, dom@),
                forall|b2: int, s2: int| 0 <= b2 < b
                    && 0 <= s2 < (#[trigger] blocks@[b2].successors@[s2]) as int + blocks@[b2].successors@.len()
                    && s2 < blocks@[b2].successors@.len()
                    && dom@[b2]@[blocks@[b2].successors@[s2] as int]
                    ==> has_loop_for(out@, b2, blocks@[b2].successors@[s2] as int),
            decreases n - b,
        {
            let succs = &blocks[b].successors;
            let mut s: usize = 0;
            while s < succs.len()
                invariant
                    s <= succs@.len(),
                    b < n,
                    n == blocks@.len(),
                    blocks_wf(blocks@),
                    succs@ == blocks@[b as int].successors@,
                    dom@.len() == n,
                    forall|b2: int| 0 <= b2 < dom@.len() ==> (#[trigger] dom@[b2])@.len() == n,
                    forall|k: int| 0 <= k < out@.len() ==> natural_loop_ok(#[trigger] out@[k], blocks@, dom@),
                    forall|b2: int, s2: int| 0 <= b2 < b
                        && 0 <= s2 < (#[trigger] blocks@[b2].successors@[s2]) as int + blocks@[b2].successors@.len()
                        && s2 < blocks@[b2].successors@.len()
                        && dom@[b2]@[blocks@[b2].successors@[s2] as int]
                        ==> has_loop_for(out@, b2, blocks@[b2].successors@[s2] as int),
                    forall|s2: int| 0 <= s2 < s
                        && dom@[b as int]@[blocks@[b as int].successors@[s2] as int]
                        ==> has_loop_for(out@, b as int, blocks@[b as int].successors@[s2] as int),
                decreases succs@.len() - s,
            {
                let ghost before = out@;
                let h = succs[s];
                if dom[b][h] {
                    let lp = self.grow_natural_loop(blocks, b, h);
                    proof {
                        assert(has_edge(blocks@, b as int, h as int)) by {
                            assert(blocks@[b as int].successors@[s as int] == h);
                        }
                        assert(natural_loop_ok(lp, blocks@, dom@));
                    }
                    out.push(lp);
                    proof {
                        assert(out@[out@.len() - 1].latch == b && out@[out@.len() - 1].header == h);
                        assert(has_loop_for(out@, b as int, h as int));
                        assert forall|k: int| 0 <= k < out@.len()
                            implies natural_loop_ok(#[trigger] out@[k], blocks@, dom@) by {
                            if k < out@.len() - 1 {
                                assert(out@[k] == before[k]);
                            }
                        }
                        lemma_loops_preserved(before, out@);
                    }
                }
                s += 1;
            }
            b += 1;
        }
        out
    }

    /// Grow a natural loop backward from its latch.
    fn grow_natural_loop(&self, blocks: &Vec<ControlBlock>, latch: usize, header: usize) -> (r: NaturalLoop)
        requires
            blocks_wf(blocks@),
            latch < blocks@.len(),
            header < blocks@.len(),
        ensures
            r.latch == latch,
            r.header == header,
            r.body@.contains(latch),
            r.body@.contains(header),
            forall|k: int| 0 <= k < r.body@.len() ==> #[trigger] r.body@[k] < blocks@.len(),
            forall|e: int| 0 <= e < r.exits@.len() ==> !r.body@.contains(#[trigger] r.exits@[e])
                && exists|j: int| 0 <= j < r.body@.len()
                    && blocks@[(#[trigger] r.body@[j]) as int].successors@.contains(r.exits@[e]),
            forall|j: int, s: int| 0 <= j < r.body@.len()
                && 0 <= s < blocks@[r.body@[j] as int].successors@.len()
                && !r.body@.contains(#[trigger] blocks@[r.body@[j] as int].successors@[s])
                ==> r.exits@.contains(blocks@[r.body@[j] as int].successors@[s]),
    {
        let n = blocks.len();
        let mut in_body: Vec<bool> = Vec::new();
        let mut x: usize = 0;
        while x < n
            invariant
                x <= n,
                in_body@.len() == x,
                forall|x2: int| 0 <= x2 < x ==> #[trigger] in_body@[x2] == (x2 == latch || x2 == header),
            decreases n - x,
        {
            in_body.push(x == latch || x == header);
            x += 1;
        }
        let ghost initial_count = count_true(in_body@, n as int);
        proof {
            lemma_count_true_bounds(in_body@, n as int);
        }
        let mut count: usize = if latch == header {
            1
        } else {
            2
        };
        proof {
            lemma_count_true_init(in_body@, latch as int, header as int, n as int);
        }
        let mut worklist: Vec<usize> = Vec::new();
        worklist.push(latch);
        while worklist.len() > 0
            invariant
                n == blocks@.len(),
                blocks_wf(blocks@),
                latch < n,
                header < n,
                in_body@.len() == n,
                in_body@[latch as int],
                in_body@[header as int],
                count == count_true(in_body@, n as int),
                count <= n,
                forall|w: int| 0 <= w < worklist@.len() ==> #[trigger] worklist@[w] < n,
            decreases n - count, worklist@.len(),
        {
            let cur = worklist.pop().unwrap();
            let mut b2: usize = 0;
            let ghost count_at_entry = count;
            let ghost wl_at_entry = worklist@.len();
            while b2 < n
                invariant
                    b2 <= n,
                    n == blocks@.len(),
                    blocks_wf(blocks@),
                    latch < n,
                    header < n,
                    cur < n,
                    in_body@.len() == n,
                    in_body@[latch as int],
                    in_body@[header as int],
                    count == count_true(in_body@, n as int),
                    count >= count_at_entry,
                    count <= n,
                    worklist@.len() <= wl_at_entry + (count - count_at_entry),
                    forall|w: int| 0 <= w < worklist@.len() ==> #[trigger] worklist@[w] < n,
                decreases n - b2,
            {
                if b2 != header {
                    if !in_body[b2] {
                        if Self::contains_index(&blocks[b2].successors, cur) {
                            proof {
                                lemma_count_true_update(in_body@, b2 as int, n as int);
                            }
                            in_body.set(b2, true);
                            proof {
                                lemma_count_true_bounds(in_body@, n as int);
                                assert(count_true(in_body@, n as int) == count + 1);
                                assert(count < n);
                            }
                            count += 1;
                            worklist.push(b2);
                        }
                    }
                }
                b2 += 1;
            }
        }
        let body = Self::row_indices(&in_body);
        let mut exits: Vec<usize> = Vec::new();
        let mut bb: usize = 0;
        while bb < n
            invariant
                bb <= n,
                n == blocks@.len(),
                blocks_wf(blocks@),
                in_body@.len() == n,
                forall|e: int| 0 <= e < exits@.len()
                    ==> (#[trigger] exits@[e]) < n && !in_body@[exits@[e] as int]
                        && exists|b2: int| 0 <= b2 < n && #[trigger] in_body@[b2]
                            && blocks@[b2].successors@.contains(exits@[e]),
                forall|b2: int, s2: int| 0 <= b2 < bb && in_body@[b2]
                    && 0 <= s2 < blocks@[b2].successors@.len()
                    && !in_body@[(#[trigger] blocks@[b2].successors@[s2]) as int]
                    ==> exits@.contains(blocks@[b2].successors@[s2]),
            decreases n - bb,
        {
            if in_body[bb] {
                let succs = &blocks[bb].successors;
                let mut si: usize = 0;
                while si < succs.len()
                    invariant
                        si <= succs@.len(),
                        bb < n,
                        n == blocks@.len(),
                        blocks_wf(blocks@),
                        succs@ == blocks@[bb as int].successors@,
                        in_body@.len() == n,
                        in_body@[bb as int],
                        forall|e: int| 0 <= e < exits@.len()
                            ==> (#[trigger] exits@[e]) < n && !in_body@[exits@[e] as int]
                                && exists|b2: int| 0 <= b2 < n && #[trigger] in_body@[b2]
                                    && blocks@[b2].successors@.contains(exits@[e]),
                        forall|b2: int, s2: int| 0 <= b2 < bb && in_body@[b2]
                            && 0 <= s2 < blocks@[b2].successors@.len()
                            && !in_body@[(#[trigger] blocks@[b2].successors@[s2]) as int]
                            ==> exits@.contains(blocks@[b2].successors@[s2]),
                        forall|s2: int| 0 <= s2 < si
                            && !in_body@[(#[trigger] succs@[s2]) as int]
                            ==> exits@.contains(succs@[s2]),
                    decreases succs@.len() - si,
                {
                    let ghost before = exits@;
                    let t = succs[si];
                    if !in_body[t] {
                        exits.push(t);
                        proof {
                            assert(exits@[exits@.len() - 1] == t);
                            assert(blocks@[bb as int].successors@[si as int] == t);
                            assert(blocks@[bb as int].successors@.contains(t));
                            lemma_contains_preserved(before, exits@);
                        }
                    }
                    si += 1;
                }
            }
            bb += 1;
        }
        proof {
            assert(body@.contains(latch as usize));
            assert(body@.contains(header as usize)) by {
                assert(in_body@[header as int]);
            }
            assert forall|e: int| 0 <= e < exits@.len()
                implies !body@.contains(#[trigger] exits@[e])
                    && exists|j: int| 0 <= j < body@.len()
                        && blocks@[(#[trigger] body@[j]) as int].successors@.contains(exits@[e]) by {
                if body@.contains(exits@[e]) {
                    let k0 = choose|k0: int| 0 <= k0 < body@.len() && body@[k0] == exits@[e];
                    assert(in_body@[body@[k0] as int]);
                }
                let b2 = choose|b2: int| 0 <= b2 < n && #[trigger] in_body@[b2]
                    && blocks@[b2].successors@.contains(exits@[e]);
                assert(body@.contains(b2 as usize));
                let j0 = choose|j0: int| 0 <= j0 < body@.len() && body@[j0] == b2 as usize;
                assert(blocks@[body@[j0] as int].successors@.contains(exits@[e]));
            }
            assert forall|j: int, s: int| 0 <= j < body@.len()
                && 0 <= s < blocks@[body@[j] as int].successors@.len()
                && !body@.contains(#[trigger] blocks@[body@[j] as int].successors@[s])
                implies exits@.contains(blocks@[body@[j] as int].successors@[s]) by {
                let b2 = body@[j] as int;
                assert(in_body@[b2]);
                let succ = blocks@[b2].successors@[s];
                assert((succ as int) < n);
                if in_body@[succ as int] {
                    assert(body@.contains(succ));
                }
            }
        }
        NaturalLoop {
            header,
            latch,
            body,
            exits,
            depth: 1,
            trip_count: Some(TripCount::Unknown),
        }
    }
}

/// Growing an index list preserves membership.
pub proof fn lemma_contains_preserved(before: Seq<usize>, after: Seq<usize>)
    requires
        after.len() >= before.len(),
        forall|k: int| 0 <= k < before.len() ==> after[k] == before[k],
    ensures
        forall|x: usize| #[trigger] before.contains(x) ==> after.contains(x),
{
    assert forall|x: usize| #[trigger] before.contains(x) implies after.contains(x) by {
        let k0 = choose|k0: int| 0 <= k0 < before.len() && before[k0] == x;
        assert(after[k0] == x);
    }
}

/// The natural loop invariant: header and latch lie in the body, the
/// latch-to-header back edge is a real edge, and the header dominates the
/// latch in the computed dominator sets.
pub open spec fn natural_loop_ok(lp: NaturalLoop, blocks: Seq<ControlBlock>, dom: Seq<Vec<bool>>) -> bool {
    &&& (lp.latch as int) < blocks.len()
    &&& (lp.header as int) < blocks.len()
    &&& lp.body@.contains(lp.header)
    &&& lp.body@.contains(lp.latch)
    &&& forall|j: int| 0 <= j < lp.body@.len() ==> (#[trigger] lp.body@[j]) < blocks.len()
    &&& has_edge(blocks, lp.latch as int, lp.header as int)
    &&& dom[lp.latch as int]@[lp.header as int]
    &&& forall|e: int| 0 <= e < lp.exits@.len() ==> !lp.body@.contains(#[trigger] lp.exits@[e])
        && exists|j: int| 0 <= j < lp.body@.len()
            && blocks[(#[trigger] lp.body@[j]) as int].successors@.contains(lp.exits@[e])
    &&& forall|j: int, s: int| 0 <= j < lp.body@.len()
        && 0 <= s < blocks[lp.body@[j] as int].successors@.len()
        && !lp.body@.contains(#[trigger] blocks[lp.body@[j] as int].successors@[s])
        ==> lp.exits@.contains(blocks[lp.body@[j] as int].successors@[s])
}

/// A recorded loop with the given latch and header.
pub open spec fn has_loop_for(loops: Seq<NaturalLoop>, b: int, h: int) -> bool {
    exists|k: int| 0 <= k < loops.len()
        && (#[trigger] loops[k]).latch == b && loops[k].header == h
}

/// Growing the loop list preserves recorded loops.
pub proof fn lemma_loops_preserved(before: Seq<NaturalLoop>, after: Seq<NaturalLoop>)
    requires
        after.len() >= before.len(),
        forall|k: int| 0 <= k < before.len() ==> after[k] == before[k],
    ensures
        forall|b: int, h: int| #[trigger] has_loop_for(before, b, h) ==> has_loop_for(after, b, h),
{
    assert forall|b: int, h: int| #[trigger] has_loop_for(before, b, h)
        implies has_loop_for(after, b, h) by {
        let k0 = choose|k0: int| 0 <= k0 < before.len()
            && (#[trigger] before[k0]).latch == b && before[k0].header == h;
        assert(after[k0].latch == b && after[k0].header == h);
    }
}

/// The number of set bits among the first `upto`.
pub open spec fn count_true(row: Seq<bool>, upto: int) -> int
    decreases upto,
{
    if upto <= 0 {
        0
    } else {
        count_true(row, upto - 1) + if row[upto - 1] {
            1int
        } else {
            0int
        }
    }
}

pub proof fn lemma_count_true_bounds(row: Seq<bool>, upto: int)
    requires
        upto >= 0,
    ensures
        0 <= count_true(row, upto) <= upto,
    decreases upto,
{
    if upto > 0 {
        lemma_count_true_bounds(row, upto - 1);
    }
}

/// Setting a clear bit raises the count by one.
pub proof fn lemma_count_true_update(row: Seq<bool>, i: int, upto: int)
    requires
        0 <= i < row.len(),
        upto <= row.len(),
    ensures
        i < upto ==> count_true(row.update(i, true), upto)
            == count_true(row, upto) + if row[i] { 0int } else { 1int },
        i >= upto ==> count_true(row.update(i, true), upto) == count_true(row, upto),
    decreases upto,
{
    if upto > 0 {
        lemma_count_true_update(row, i, upto - 1);
        assert(row.update(i, true)[upto - 1] == if i == upto - 1 { true } else { row[upto - 1] });
    }
}

/// The initial body holds the latch and the header.
pub proof fn lemma_count_true_init(row: Seq<bool>, latch: int, header: int, n: int)
    requires
        row.len() == n,
        0 <= latch < n,
        0 <= header < n,
        forall|x: int| 0 <= x < n ==> #[trigger] row[x] == (x == latch || x == header),
    ensures
        latch == header ==> count_true(row, n) == 1,
        latch != header ==> count_true(row, n) == 2,
{
    lemma_count_true_two(row, latch, header, n);
}

proof fn lemma_count_true_two(row: Seq<bool>, latch: int, header: int, upto: int)
    requires
        0 <= latch,
        0 <= header,
        upto <= row.len(),
        forall|x: int| 0 <= x < row.len() ==> #[trigger] row[x] == (x == latch || x == header),
    ensures
        count_true(row, upto) == (if latch < upto { 1int } else { 0int })
            + (if header < upto && header != latch { 1int } else { 0int }),
    decreases upto,
{
    if upto > 0 {
        lemma_count_true_two(row, latch, header, upto - 1);
    }
}

/// Number of instructions with a result among the first `upto` of a
/// block.
pub open spec fn count_defs_in(instrs: Seq<Instruction>, upto: int) -> int
    decreases upto,
{
    if upto <= 0 {
        0
    } else {
        count_defs_in(instrs, upto - 1) + if instrs[upto - 1].result is Some {
            1int
        } else {
            0int
        }
    }
}

/// Number of instructions with a result in the first `upto` blocks.
pub open spec fn count_defs(blocks: Seq<ControlBlock>, upto: int) -> int
    decreases upto,
{
    if upto <= 0 {
        0
    } else {
        count_defs(blocks, upto - 1)
            + count_defs_in(blocks[upto - 1].instructions@, blocks[upto - 1].instructions@.len() as int)
    }
}

pub proof fn lemma_count_defs_in_bounds(instrs: Seq<Instruction>, upto: int)
    requires
        upto >= 0,
    ensures
        0 <= count_defs_in(instrs, upto) <= upto,
    decreases upto,
{
    if upto > 0 {
        lemma_count_defs_in_bounds(instrs, upto - 1);
    }
}

pub proof fn lemma_count_defs_nonneg(blocks: Seq<ControlBlock>, upto: int)
    requires
        upto >= 0,
    ensures
        0 <= count_defs(blocks, upto),
    decreases upto,
{
    if upto > 0 {
        lemma_count_defs_nonneg(blocks, upto - 1);
        lemma_count_defs_in_bounds(blocks[upto - 1].instructions@, blocks[upto - 1].instructions@.len() as int);
    }
}

/// The recorded definition sites: one (variable, instruction id) pair per
/// instruction with a result, in block and instruction order.
pub open spec fn reaching_ok(blocks: Seq<ControlBlock>, rd: Seq<(String, InstrId)>) -> bool {
    &&& rd.len() == count_defs(blocks, blocks.len() as int)
    &&& forall|b: int, t: int| 0 <= b < blocks.len()
        && 0 <= t < blocks[b].instructions@.len()
        && (#[trigger] blocks[b].instructions@[t]).result is Some
        ==> {
            let pos = count_defs(blocks, b) + count_defs_in(blocks[b].instructions@, t);
            &&& 0 <= pos < rd.len()
            &&& rd[pos].0@ == blocks[b].instructions@[t].result->0@
            &&& rd[pos].1 == blocks[b].instructions@[t].id
        }
}

/// A register operand of the instruction carries the name `x`.
#[verifier::opaque]
pub open spec fn reg_operand(ins: Instruction, x: Seq<char>) -> bool {
    exists|k: int| 0 <= k < ins.operands@.len()
        && (#[trigger] ins.operands@[k]).operand_type == OperandType::Register
        && ins.operands@[k].value@ == x
}

/// `x` survives the block's add-operands, remove-result sweep over the
/// first `upto` instructions: some instruction uses it as a register
/// operand, and no instruction from that point on produces it.
#[verifier::opaque]
pub open spec fn live_in_prefix(instrs: Seq<Instruction>, upto: int, x: Seq<char>) -> bool {
    exists|i: int| 0 <= i < upto && reg_operand(#[trigger] instrs[i], x)
        && forall|j: int| i <= j < upto
            ==> !((#[trigger] instrs[j]).result matches Some(r) && r@ == x)
}

/// Every listed name is live over the whole block.
pub open spec fn block_live_sound(lst: Seq<String>, instrs: Seq<Instruction>) -> bool {
    forall|k: int| 0 <= k < lst.len()
        ==> live_in_prefix(instrs, instrs.len() as int, (#[trigger] lst[k])@)
}

/// A name that is live up to `t`, or enters at instruction `t`, and is not
/// produced by instruction `t`, is live up to `t + 1`.
proof fn lemma_live_extend(instrs: Seq<Instruction>, t: int, x: Seq<char>)
    requires
        0 <= t < instrs.len(),
        live_in_prefix(instrs, t, x) || reg_operand(instrs[t], x),
        !(instrs[t].result matches Some(r) && r@ == x),
    ensures
        live_in_prefix(instrs, t + 1, x),
{
    reveal(live_in_prefix);
    if live_in_prefix(instrs, t, x) {
        let i = choose|i: int| 0 <= i < t && reg_operand(#[trigger] instrs[i], x)
            && forall|j: int| i <= j < t
                ==> !((#[trigger] instrs[j]).result matches Some(r) && r@ == x);
        assert(reg_operand(instrs[i], x));
        assert forall|j: int| i <= j < t + 1
            implies !((#[trigger] instrs[j]).result matches Some(r) && r@ == x) by {}
    } else {
        assert forall|j: int| t <= j < t + 1
            implies !((#[trigger] instrs[j]).result matches Some(r) && r@ == x) by {}
    }
}

/// Membership of a name among string entries, by view.
pub open spec fn mem_name(s: Seq<String>, x: Seq<char>) -> bool {
    exists|k: int| 0 <= k < s.len() && (#[trigger] s[k])@ == x
}

impl FlowAnalyzer {
    /// Definition sites per variable name: one entry per instruction that
    /// produces a result, in block and instruction order.
    pub fn compute_reaching_definitions(&self, blocks: &Vec<ControlBlock>) -> (r: Vec<(String, InstrId)>)
        ensures
            reaching_ok(blocks@, r@),
    {
        let mut out: Vec<(String, InstrId)> = Vec::new();
        let mut b: usize = 0;
        while b < blocks.len()
            invariant
                b <= blocks@.len(),
                out@.len() == count_defs(blocks@, b as int),
                forall|b2: int, t2: int| 0 <= b2 < b
                    && 0 <= t2 < blocks@[b2].instructions@.len()
                    && (#[trigger] blocks@[b2].instructions@[t2]).result is Some
                    ==> {
                        let pos = count_defs(blocks@, b2) + count_defs_in(blocks@[b2].instructions@, t2);
                        &&& 0 <= pos < out@.len()
                        &&& out@[pos].0@ == blocks@[b2].instructions@[t2].result->0@
                        &&& out@[pos].1 == blocks@[b2].instructions@[t2].id
                    },
            decreases blocks@.len() - b,
        {
            let instrs = &blocks[b].instructions;
            let ghost base = out@.len() as int;
            let mut t: usize = 0;
            while t < instrs.len()
                invariant
                    t <= instrs@.len(),
                    b < blocks@.len(),
                    instrs@ == blocks@[b as int].instructions@,
                    base == count_defs(blocks@, b as int),
                    out@.len() == base + count_defs_in(instrs@, t as int),
                    forall|b2: int, t2: int| 0 <= b2 < b
                        && 0 <= t2 < blocks@[b2].instructions@.len()
                        && (#[trigger] blocks@[b2].instructions@[t2]).result is Some
                        ==> {
                            let pos = count_defs(blocks@, b2) + count_defs_in(blocks@[b2].instructions@, t2);
                            &&& 0 <= pos < out@.len()
                            &&& out@[pos].0@ == blocks@[b2].instructions@[t2].result->0@
                            &&& out@[pos].1 == blocks@[b2].instructions@[t2].id
                        },
                    forall|t2: int| 0 <= t2 < t
                        && (#[trigger] instrs@[t2]).result is Some
                        ==> {
                            let pos = base + count_defs_in(instrs@, t2);
                            &&& 0 <= pos < out@.len()
                            &&& out@[pos].0@ == instrs@[t2].result->0@
                            &&& out@[pos].1 == instrs@[t2].id
                        },
                decreases instrs@.len() - t,
            {
                proof {
                    lemma_count_defs_in_bounds(instrs@, t as int);
                }
                match &instrs[t].result {
                    Some(v) => {
                        out.push((v.clone(), instrs[t].id));
                    },
                    None => {},
                }
                t += 1;
            }
            proof {
                assert(count_defs(blocks@, b + 1)
                    == count_defs(blocks@, b as int) + count_defs_in(instrs@, instrs@.len() as int));
            }
            b += 1;
        }
        out
    }

    /// Remove every entry with the given name, keeping the rest.
    fn remove_name(set: Vec<String>, name: &String) -> (r: Vec<String>)
        ensures
            forall|k: int| 0 <= k < r@.len()
                ==> (#[trigger] r@[k])@ != name@ && mem_name(set@, r@[k]@),
    {
        let mut out: Vec<String> = Vec::new();
        let mut k: usize = 0;
        while k < set.len()
            invariant
                k <= set@.len(),
                forall|k2: int| 0 <= k2 < out@.len()
                    ==> (#[trigger] out@[k2])@ != name@ && mem_name(set@, out@[k2]@),
            decreases set@.len() - k,
        {
            if !(set[k] == *name) {
                out.push(set[k].clone());
                proof {
                    assert(out@[out@.len() - 1]@ == set@[k as int]@);
                    assert(mem_name(set@, set@[k as int]@));
                }
            }
            k += 1;
        }
        out
    }

    fn mem_exec(set: &Vec<String>, x: &String) -> (r: bool)
        ensures
            r == mem_name(set@, x@),
    {
        let mut k: usize = 0;
        while k < set.len()
            invariant
                k <= set@.len(),
                forall|k2: int| 0 <= k2 < k ==> (#[trigger] set@[k2])@ != x@,
            decreases set@.len() - k,
        {
            if set[k] == *x {
                proof {
                    assert(set@[k as int]@ == x@);
                }
                return true;
            }
            k += 1;
        }
        false
    }

    /// The live-variable sweep of one block: register operands enter the
    /// set, each instruction's result then leaves it.
    #[verifier::spinoff_prover]
    fn compute_block_live(instrs: &Vec<Instruction>) -> (r: Vec<String>)
        ensures
            block_live_sound(r@, instrs@),
    {
        let mut live: Vec<String> = Vec::new();
        let mut t: usize = 0;
        while t < instrs.len()
            invariant
                t <= instrs@.len(),
                forall|k: int| 0 <= k < live@.len()
                    ==> live_in_prefix(instrs@, t as int, (#[trigger] live@[k])@),
            decreases instrs@.len() - t,
        {
            let ins = &instrs[t];
            let mut k: usize = 0;
            while k < ins.operands.len()
                invariant
                    k <= ins.operands@.len(),
                    t < instrs@.len(),
                    *ins == instrs@[t as int],
                    forall|k2: int| 0 <= k2 < live@.len()
                        ==> live_in_prefix(instrs@, t as int, (#[trigger] live@[k2])@)
                            || reg_operand(instrs@[t as int], live@[k2]@),
                decreases ins.operands@.len() - k,
            {
                let is_reg = match ins.operands[k].operand_type {
                    OperandType::Register => true,
                    _ => false,
                };
                if is_reg {
                    if !Self::mem_exec(&live, &ins.operands[k].value) {
                        live.push(ins.operands[k].value.clone());
                        proof {
                            assert(live@[live@.len() - 1]@ == ins.operands@[k as int].value@);
                            assert(reg_operand(instrs@[t as int], live@[live@.len() - 1]@)) by {
                                reveal(reg_operand);
                                assert(instrs@[t as int].operands@[k as int].operand_type
                                    == OperandType::Register);
                            }
                        }
                    }
                }
                k += 1;
            }
            let ghost mid = live@;
            match &ins.result {
                Some(res) => {
                    let filtered = Self::remove_name(live, res);
                    live = filtered;
                    proof {
                        assert forall|k2: int| 0 <= k2 < live@.len()
                            implies live_in_prefix(instrs@, t + 1, (#[trigger] live@[k2])@) by {
                            assert(mem_name(mid, live@[k2]@));
                            let k0 = choose|k0: int| 0 <= k0 < mid.len()
                                && (#[trigger] mid[k0])@ == live@[k2]@;
                            assert(live_in_prefix(instrs@, t as int, mid[k0]@)
                                || reg_operand(instrs@[t as int], mid[k0]@));
                            assert(live@[k2]@ != res@);
                            lemma_live_extend(instrs@, t as int, live@[k2]@);
                        }
                    }
                },
                None => {
                    proof {
                        assert forall|k2: int| 0 <= k2 < live@.len()
                            implies live_in_prefix(instrs@, t + 1, (#[trigger] live@[k2])@) by {
                            lemma_live_extend(instrs@, t as int, live@[k2]@);
                        }
                    }
                },
            }
            t += 1;
        }
        live
    }

    /// The per-block live-variable summaries; every listed name is live
    /// under the add-operands, remove-result sweep of its block.
    pub fn compute_live_variables(&self, blocks: &Vec<ControlBlock>) -> (r: Vec<Vec<String>>)
        ensures
            r@.len() == blocks@.len(),
            forall|b: int| 0 <= b < blocks@.len()
                ==> block_live_sound((#[trigger] r@[b])@, blocks@[b].instructions@),
    {
        let mut out: Vec<Vec<String>> = Vec::new();
        let mut b: usize = 0;
        while b < blocks.len()
            invariant
                b <= blocks@.len(),
                out@.len() == b,
                forall|b2: int| 0 <= b2 < b
                    ==> block_live_sound((#[trigger] out@[b2])@, blocks@[b2].instructions@),
            decreases blocks@.len() - b,
        {
            let live = Self::compute_block_live(&blocks[b].instructions);
            out.push(live);
            b += 1;
        }
        out
    }
}


/// A recorded edge with the given endpoints and variable.
pub open spec fn has_flow(flows: Seq<DataFlow>, from: InstrId, to: InstrId, var: Seq<char>) -> bool {
    exists|e: int| 0 <= e < flows.len()
        && (#[trigger] flows[e]).from_instruction == from
        && flows[e].to_instruction == to
        && flows[e].variable@ == var
}

/// The edge pairs a register operand of the instruction with a recorded
/// definition site of the same name.
pub open spec fn flow_matches(f: DataFlow, ins: Instruction, rd: Seq<(String, InstrId)>) -> bool {
    exists|k: int, d: int| 0 <= k < ins.operands@.len() && 0 <= d < rd.len()
        && (#[trigger] ins.operands@[k]).operand_type == OperandType::Register
        && (#[trigger] rd[d]).0@ == ins.operands@[k].value@
        && f.from_instruction == rd[d].1
        && f.to_instruction == ins.id
        && f.variable@ == ins.operands@[k].value@
}

/// Some instruction of the arena justifies the edge.
pub open spec fn flow_justified(f: DataFlow, blocks: Seq<ControlBlock>, rd: Seq<(String, InstrId)>) -> bool {
    exists|b: int, t: int| 0 <= b < blocks.len() && 0 <= t < blocks[b].instructions@.len()
        && flow_matches(f, #[trigger] blocks[b].instructions@[t], rd)
}

/// Every (register operand, definition site) pair of the instruction has
/// its edge.
pub open spec fn instr_flows_complete(flows: Seq<DataFlow>, ins: Instruction, rd: Seq<(String, InstrId)>) -> bool {
    forall|k: int, d: int| 0 <= k < ins.operands@.len() && 0 <= d < rd.len()
        && (#[trigger] ins.operands@[k]).operand_type == OperandType::Register
        && (#[trigger] rd[d]).0@ == ins.operands@[k].value@
        ==> has_flow(flows, rd[d].1, ins.id, ins.operands@[k].value@)
}

/// Growing the edge list preserves recorded edges.
pub proof fn lemma_has_flow_preserved(before: Seq<DataFlow>, after: Seq<DataFlow>)
    requires
        after.len() >= before.len(),
        forall|e: int| 0 <= e < before.len() ==> after[e] == before[e],
    ensures
        forall|from: InstrId, to: InstrId, var: Seq<char>|
            #[trigger] has_flow(before, from, to, var) ==> has_flow(after, from, to, var),
{
    assert forall|from: InstrId, to: InstrId, var: Seq<char>|
        #[trigger] has_flow(before, from, to, var)
        implies has_flow(after, from, to, var) by {
        let e0 = choose|e0: int| 0 <= e0 < before.len()
            && (#[trigger] before[e0]).from_instruction == from
            && before[e0].to_instruction == to
            && before[e0].variable@ == var;
        assert(after[e0] == before[e0]);
    }
}

/// Growing the edge list preserves an instruction's completeness.
pub proof fn lemma_instr_complete_preserved(
    before: Seq<DataFlow>,
    after: Seq<DataFlow>,
    ins: Instruction,
    rd: Seq<(String, InstrId)>,
)
    requires
        after.len() >= before.len(),
        forall|e: int| 0 <= e < before.len() ==> after[e] == before[e],
        instr_flows_complete(before, ins, rd),
    ensures
        instr_flows_complete(after, ins, rd),
{
    lemma_has_flow_preserved(before, after);
    assert forall|k: int, d: int| 0 <= k < ins.operands@.len() && 0 <= d < rd.len()
        && (#[trigger] ins.operands@[k]).operand_type == OperandType::Register
        && (#[trigger] rd[d]).0@ == ins.operands@[k].value@
        implies has_flow(after, rd[d].1, ins.id, ins.operands@[k].value@) by {
        assert(has_flow(before, rd[d].1, ins.id, ins.operands@[k].value@));
    }
}

pub open spec fn is_arith_opcode(o: Opcode) -> bool {
    o == Opcode::Add || o == Opcode::Sub || o == Opcode::Mul || o == Opcode::Div
}

/// Some instruction of the block is an arithmetic computation.
pub open spec fn block_has_arith(instrs: Seq<Instruction>) -> bool {
    exists|t: int| 0 <= t < instrs.len() && is_arith_opcode((#[trigger] instrs[t]).opcode)
}

/// The instruction at (b, t) computes an unused, effect-free result under
/// the computed live sets.
pub open spec fn dead_result(blocks: Seq<ControlBlock>, live: Seq<Vec<String>>, b: int, t: int) -> bool {
    &&& blocks[b].instructions@[t].result is Some
    &&& blocks[b].instructions@[t].side_effects@.len() == 0
    &&& forall|b2: int| 0 <= b2 < live.len()
        ==> !mem_name((#[trigger] live[b2])@, blocks[b].instructions@[t].result->0@)
}

/// A recorded dead-code entry for the given result name and block.
pub open spec fn has_dce_entry(out: Seq<OptimizationOpportunity>, res: Seq<char>, b: int) -> bool {
    exists|e: int| 0 <= e < out.len()
        && (#[trigger] out[e]).opportunity_type == OptimizationType::DeadCodeElimination
        && out[e].description@ == "Dead instruction producing "@ + res
        && out[e].affected_blocks@.len() == 1
        && out[e].affected_blocks@[0] == b
}

/// A dead-code entry names a genuinely dead result.
pub open spec fn dce_justified(o: OptimizationOpportunity, blocks: Seq<ControlBlock>, live: Seq<Vec<String>>) -> bool {
    exists|b: int, t: int| 0 <= b < blocks.len() && 0 <= t < blocks[b].instructions@.len()
        && dead_result(blocks, live, b, t)
        && o.description@ == "Dead instruction producing "@ + (#[trigger] blocks[b].instructions@[t]).result->0@
}

/// A common-subexpression entry names an expression available in two
/// distinct blocks.
pub open spec fn cse_justified(o: OptimizationOpportunity, avail: Seq<Vec<String>>) -> bool {
    exists|x: Seq<char>, b1: int, b2: int| 0 <= b1 < b2 < avail.len()
        && #[trigger] mem_name(avail[b1]@, x) && #[trigger] mem_name(avail[b2]@, x)
        && o.description@ == "Common subexpression: "@ + x
}

/// A loop-motion or unrolling entry covers the body of a detected loop.
pub open spec fn loop_opp_justified(o: OptimizationOpportunity, loops: Seq<NaturalLoop>) -> bool {
    exists|j: int| 0 <= j < loops.len() && (#[trigger] loops[j]).body@ == o.affected_blocks@
        && (o.opportunity_type == OptimizationType::LoopUnrolling ==> loops[j].body@.len() < 10)
}

/// Every entry is one of the five derived kinds, and each carries its
/// justification.
pub open spec fn opp_sound(
    o: OptimizationOpportunity,
    blocks: Seq<ControlBlock>,
    live: Seq<Vec<String>>,
    avail: Seq<Vec<String>>,
    loops: Seq<NaturalLoop>,
) -> bool {
    match o.opportunity_type {
        OptimizationType::DeadCodeElimination => dce_justified(o, blocks, live),
        OptimizationType::CommonSubexpressionElimination => cse_justified(o, avail),
        OptimizationType::LoopInvariantCodeMotion => loop_opp_justified(o, loops),
        OptimizationType::LoopUnrolling => loop_opp_justified(o, loops),
        OptimizationType::Vectorization => true,
        _ => false,
    }
}

/// Growing the list preserves recorded dead-code entries.
pub proof fn lemma_dce_preserved(before: Seq<OptimizationOpportunity>, after: Seq<OptimizationOpportunity>)
    requires
        after.len() >= before.len(),
        forall|e: int| 0 <= e < before.len() ==> after[e] == before[e],
    ensures
        forall|res: Seq<char>, b: int| #[trigger] has_dce_entry(before, res, b)
            ==> has_dce_entry(after, res, b),
{
    assert forall|res: Seq<char>, b: int| #[trigger] has_dce_entry(before, res, b)
        implies has_dce_entry(after, res, b) by {
        let e0 = choose|e0: int| 0 <= e0 < before.len()
            && (#[trigger] before[e0]).opportunity_type == OptimizationType::DeadCodeElimination
            && before[e0].description@ == "Dead instruction producing "@ + res
            && before[e0].affected_blocks@.len() == 1
            && before[e0].affected_blocks@[0] == b;
        assert(after[e0] == before[e0]);
    }
}

impl FlowAnalyzer {
    fn opcode_label(o: Opcode) -> (r: &'static str)
    {
        match o {
            Opcode::Add => "Add",
            Opcode::Sub => "Sub",
            Opcode::Mul => "Mul",
            Opcode::Div => "Div",
            _ => "Op",
        }
    }

    /// Render an arithmetic instruction as a commutative-expression key:
    /// the opcode name and the operand values.
    fn expr_repr(ins: &Instruction) -> (r: String)
    {
        let mut s = String::from_str(Self::opcode_label(ins.opcode));
        s.append("(");
        let mut k: usize = 0;
        while k < ins.operands.len()
            decreases ins.operands@.len() - k,
        {
            if k > 0 {
                s.append(",");
            }
            s.append(ins.operands[k].value.as_str());
            k += 1;
        }
        s.append(")");
        s
    }

    /// The per-block available-expression summary: one key per distinct
    /// arithmetic instruction of the block; a block without arithmetic
    /// instructions has an empty summary.
    pub fn compute_available_expressions(&self, blocks: &Vec<ControlBlock>) -> (r: Vec<Vec<String>>)
        ensures
            r@.len() == blocks@.len(),
            forall|b: int| 0 <= b < blocks@.len() && (#[trigger] r@[b])@.len() > 0
                ==> block_has_arith(blocks@[b].instructions@),
    {
        let mut out: Vec<Vec<String>> = Vec::new();
        let mut b: usize = 0;
        while b < blocks.len()
            invariant
                b <= blocks@.len(),
                out@.len() == b,
                forall|b2: int| 0 <= b2 < b && (#[trigger] out@[b2])@.len() > 0
                    ==> block_has_arith(blocks@[b2].instructions@),
            decreases blocks@.len() - b,
        {
            let instrs = &blocks[b].instructions;
            let mut exprs: Vec<String> = Vec::new();
            let mut t: usize = 0;
            while t < instrs.len()
                invariant
                    t <= instrs@.len(),
                    b < blocks@.len(),
                    instrs@ == blocks@[b as int].instructions@,
                    exprs@.len() > 0 ==> block_has_arith(instrs@),
                decreases instrs@.len() - t,
            {
                let ins = &instrs[t];
                let is_arith = match ins.opcode {
                    Opcode::Add | Opcode::Sub | Opcode::Mul | Opcode::Div => true,
                    _ => false,
                };
                if is_arith {
                    let repr = Self::expr_repr(ins);
                    if !Self::mem_exec(&exprs, &repr) {
                        exprs.push(repr);
                        proof {
                            assert(is_arith_opcode(instrs@[t as int].opcode));
                            assert(block_has_arith(instrs@));
                        }
                    }
                }
                t += 1;
            }
            out.push(exprs);
            b += 1;
        }
        out
    }

    /// One def-to-use edge for every pair of a register operand and a
    /// recorded definition site of that name.
    fn append_instr_flows(
        out: &mut Vec<DataFlow>,
        ins: &Instruction,
        reaching: &Vec<(String, InstrId)>,
    )
        ensures
            final(out)@.len() >= old(out)@.len(),
            forall|e: int| 0 <= e < old(out)@.len() ==> final(out)@[e] == old(out)@[e],
            forall|e: int| old(out)@.len() <= e < final(out)@.len()
                ==> (#[trigger] final(out)@[e]).flow_type == DataFlowType::DefUse
                    && final(out)@[e].distance == 1
                    && flow_matches(final(out)@[e], *ins, reaching@),
            instr_flows_complete(final(out)@, *ins, reaching@),
    {
        let ghost orig = out@;
        let mut k: usize = 0;
        while k < ins.operands.len()
            invariant
                k <= ins.operands@.len(),
                out@.len() >= orig.len(),
                forall|e: int| 0 <= e < orig.len() ==> out@[e] == orig[e],
                forall|e: int| orig.len() <= e < out@.len()
                    ==> (#[trigger] out@[e]).flow_type == DataFlowType::DefUse
                        && out@[e].distance == 1
                        && flow_matches(out@[e], *ins, reaching@),
                forall|k2: int, d2: int| 0 <= k2 < k && 0 <= d2 < reaching@.len()
                    && (#[trigger] ins.operands@[k2]).operand_type == OperandType::Register
                    && (#[trigger] reaching@[d2]).0@ == ins.operands@[k2].value@
                    ==> has_flow(out@, reaching@[d2].1, ins.id, ins.operands@[k2].value@),
            decreases ins.operands@.len() - k,
        {
            let is_reg = match ins.operands[k].operand_type {
                OperandType::Register => true,
                _ => false,
            };
            if is_reg {
                let mut d: usize = 0;
                while d < reaching.len()
                    invariant
                        d <= reaching@.len(),
                        k < ins.operands@.len(),
                        ins.operands@[k as int].operand_type == OperandType::Register,
                        out@.len() >= orig.len(),
                        forall|e: int| 0 <= e < orig.len() ==> out@[e] == orig[e],
                        forall|e: int| orig.len() <= e < out@.len()
                            ==> (#[trigger] out@[e]).flow_type == DataFlowType::DefUse
                                && out@[e].distance == 1
                                && flow_matches(out@[e], *ins, reaching@),
                        forall|k2: int, d2: int| 0 <= k2 < k && 0 <= d2 < reaching@.len()
                            && (#[trigger] ins.operands@[k2]).operand_type == OperandType::Register
                            && (#[trigger] reaching@[d2]).0@ == ins.operands@[k2].value@
                            ==> has_flow(out@, reaching@[d2].1, ins.id, ins.operands@[k2].value@),
                        forall|d2: int| 0 <= d2 < d
                            && (#[trigger] reaching@[d2]).0@ == ins.operands@[k as int].value@
                            ==> has_flow(out@, reaching@[d2].1, ins.id, ins.operands@[k as int].value@),
                    decreases reaching@.len() - d,
                {
                    let ghost before = out@;
                    if reaching[d].0 == ins.operands[k].value {
                        let f = DataFlow {
                            from_instruction: reaching[d].1,
                            to_instruction: ins.id,
                            variable: ins.operands[k].value.clone(),
                            flow_type: DataFlowType::DefUse,
                            distance: 1,
                        };
                        proof {
                            assert(flow_matches(f, *ins, reaching@)) by {
                                assert(ins.operands@[k as int].operand_type == OperandType::Register);
                                assert(reaching@[d as int].0@ == ins.operands@[k as int].value@);
                            }
                        }
                        out.push(f);
                        proof {
                            assert(out@[out@.len() - 1].from_instruction == reaching@[d as int].1);
                            assert(has_flow(out@, reaching@[d as int].1, ins.id, ins.operands@[k as int].value@));
                            lemma_has_flow_preserved(before, out@);
                        }
                    }
                    d += 1;
                }
            }
            k += 1;
        }
    }

    /// Def-to-use edges over the whole arena: for each register operand of
    /// each instruction, one edge from every recorded definition site of
    /// that name, and no edge without such a pair behind it.
    pub fn analyze_data_flows(
        &self,
        blocks: &Vec<ControlBlock>,
        reaching: &Vec<(String, InstrId)>,
    ) -> (r: Vec<DataFlow>)
        ensures
            forall|e: int| 0 <= e < r@.len()
                ==> (#[trigger] r@[e]).flow_type == DataFlowType::DefUse
                    && r@[e].distance == 1
                    && flow_justified(r@[e], blocks@, reaching@),
            forall|b: int, t: int| 0 <= b < blocks@.len()
                && 0 <= t < blocks@[b].instructions@.len()
                ==> instr_flows_complete(r@, #[trigger] blocks@[b].instructions@[t], reaching@),
    {
        let mut out: Vec<DataFlow> = Vec::new();
        let mut b: usize = 0;
        while b < blocks.len()
            invariant
                b <= blocks@.len(),
                forall|e: int| 0 <= e < out@.len()
                    ==> (#[trigger] out@[e]).flow_type == DataFlowType::DefUse
                        && out@[e].distance == 1
                        && flow_justified(out@[e], blocks@, reaching@),
                forall|b2: int, t2: int| 0 <= b2 < b
                    && 0 <= t2 < blocks@[b2].instructions@.len()
                    ==> instr_flows_complete(out@, #[trigger] blocks@[b2].instructions@[t2], reaching@),
            decreases blocks@.len() - b,
        {
            let instrs = &blocks[b].instructions;
            let mut t: usize = 0;
            while t < instrs.len()
                invariant
                    t <= instrs@.len(),
                    b < blocks@.len(),
                    instrs@ == blocks@[b as int].instructions@,
                    forall|e: int| 0 <= e < out@.len()
                        ==> (#[trigger] out@[e]).flow_type == DataFlowType::DefUse
                            && out@[e].distance == 1
                            && flow_justified(out@[e], blocks@, reaching@),
                    forall|b2: int, t2: int| 0 <= b2 < b
                        && 0 <= t2 < blocks@[b2].instructions@.len()
                        ==> instr_flows_complete(out@, #[trigger] blocks@[b2].instructions@[t2], reaching@),
                    forall|t2: int| 0 <= t2 < t
                        ==> instr_flows_complete(out@, #[trigger] instrs@[t2], reaching@),
                decreases instrs@.len() - t,
            {
                let ghost before = out@;
                let ins = &instrs[t];
                Self::append_instr_flows(&mut out, ins, reaching);
                proof {
                    assert forall|e: int| 0 <= e < out@.len()
                        implies (#[trigger] out@[e]).flow_type == DataFlowType::DefUse
                            && out@[e].distance == 1
                            && flow_justified(out@[e], blocks@, reaching@) by {
                        if e < before.len() {
                            assert(out@[e] == before[e]);
                        } else {
                            assert(flow_matches(out@[e], instrs@[t as int], reaching@));
                            assert(flow_matches(out@[e], blocks@[b as int].instructions@[t as int], reaching@));
                            assert(flow_justified(out@[e], blocks@, reaching@));
                        }
                    }
                    assert forall|b2: int, t2: int| 0 <= b2 < b
                        && 0 <= t2 < blocks@[b2].instructions@.len()
                        implies instr_flows_complete(out@, #[trigger] blocks@[b2].instructions@[t2], reaching@) by {
                        lemma_instr_complete_preserved(before, out@, blocks@[b2].instructions@[t2], reaching@);
                    }
                    assert forall|t2: int| 0 <= t2 < t + 1
                        implies instr_flows_complete(out@, #[trigger] instrs@[t2], reaching@) by {
                        if t2 < t {
                            lemma_instr_complete_preserved(before, out@, instrs@[t2], reaching@);
                        }
                    }
                }
                t += 1;
            }
            b += 1;
        }
        out
    }

    /// Derived optimization facts: dead-code candidates, common
    /// subexpressions seen in more than one block, and per-loop motion and
    /// unrolling opportunities; a vectorization note closes the list. Every
    /// entry carries its justification, every dead result is reported, and
    /// every loop yields its opportunities.
    pub fn identify_optimizations(
        &self,
        blocks: &Vec<ControlBlock>,
        live: &Vec<Vec<String>>,
        avail: &Vec<Vec<String>>,
        loops: &Vec<NaturalLoop>,
    ) -> (r: Vec<OptimizationOpportunity>)
        ensures
            forall|e: int| 0 <= e < r@.len()
                ==> opp_sound(#[trigger] r@[e], blocks@, live@, avail@, loops@),
            forall|b: int, t: int| 0 <= b < blocks@.len()
                && 0 <= t < blocks@[b].instructions@.len()
                && dead_result(blocks@, live@, b, t)
                ==> has_dce_entry(r@, (#[trigger] blocks@[b].instructions@[t]).result->0@, b),
            forall|j: int| 0 <= j < loops@.len() ==> exists|k: int| 0 <= k < r@.len()
                && (#[trigger] r@[k]).opportunity_type == OptimizationType::LoopInvariantCodeMotion
                && r@[k].affected_blocks@ == (#[trigger] loops@[j]).body@,
            forall|j: int| 0 <= j < loops@.len() && (#[trigger] loops@[j]).body@.len() < 10
                ==> exists|k: int| 0 <= k < r@.len()
                    && (#[trigger] r@[k]).opportunity_type == OptimizationType::LoopUnrolling
                    && r@[k].affected_blocks@ == loops@[j].body@,
            r@.len() > 0,
            r@[r@.len() - 1].opportunity_type == OptimizationType::Vectorization,
    {
        let mut out: Vec<OptimizationOpportunity> = Vec::new();
        // dead-code candidates: results absent from every block's live set
        let mut b: usize = 0;
        while b < blocks.len()
            invariant
                b <= blocks@.len(),
                forall|e: int| 0 <= e < out@.len()
                    ==> opp_sound(#[trigger] out@[e], blocks@, live@, avail@, loops@),
                forall|b2: int, t2: int| 0 <= b2 < b
                    && 0 <= t2 < blocks@[b2].instructions@.len()
                    && dead_result(blocks@, live@, b2, t2)
                    ==> has_dce_entry(out@, (#[trigger] blocks@[b2].instructions@[t2]).result->0@, b2),
            decreases blocks@.len() - b,
        {
            let instrs = &blocks[b].instructions;
            let mut t: usize = 0;
            while t < instrs.len()
                invariant
                    t <= instrs@.len(),
                    b < blocks@.len(),
                    instrs@ == blocks@[b as int].instructions@,
                    forall|e: int| 0 <= e < out@.len()
                        ==> opp_sound(#[trigger] out@[e], blocks@, live@, avail@, loops@),
                    forall|b2: int, t2: int| 0 <= b2 < b
                        && 0 <= t2 < blocks@[b2].instructions@.len()
                        && dead_result(blocks@, live@, b2, t2)
                        ==> has_dce_entry(out@, (#[trigger] blocks@[b2].instructions@[t2]).result->0@, b2),
                    forall|t2: int| 0 <= t2 < t
                        && dead_result(blocks@, live@, b as int, t2)
                        ==> has_dce_entry(out@, (#[trigger] instrs@[t2]).result->0@, b as int),
                decreases instrs@.len() - t,
            {
                let ghost before = out@;
                let ins = &instrs[t];
                match &ins.result {
                    Some(res) => {
                        if ins.side_effects.len() == 0 {
                            let mut found = false;
                            let mut b2: usize = 0;
                            while b2 < live.len()
                                invariant
                                    b2 <= live@.len(),
                                    found == exists|b3: int| 0 <= b3 < b2
                                        && mem_name((#[trigger] live@[b3])@, res@),
                                decreases live@.len() - b2,
                            {
                                if Self::mem_exec(&live[b2], res) {
                                    proof {
                                        assert(mem_name(live@[b2 as int]@, res@));
                                    }
                                    found = true;
                                }
                                b2 += 1;
                            }
                            if !found {
                                let mut desc = String::from_str("Dead instruction producing ");
                                desc.append(res.as_str());
                                out.push(OptimizationOpportunity {
                                    opportunity_type: OptimizationType::DeadCodeElimination,
                                    description: desc,
                                    affected_blocks: vec![b],
                                    estimated_benefit: OptimizationBenefit::Medium,
                                    prerequisites: Vec::new(),
                                });
                                proof {
                                    let e = out@.len() - 1;
                                    assert(out@[e].affected_blocks@ =~= seq![b]);
                                    assert(dead_result(blocks@, live@, b as int, t as int));
                                    assert(has_dce_entry(out@, instrs@[t as int].result->0@, b as int));
                                    assert(dce_justified(out@[e], blocks@, live@));
                                    lemma_dce_preserved(before, out@);
                                }
                            }
                        }
                    },
                    None => {},
                }
                t += 1;
            }
            b += 1;
        }
        // common subexpressions: expressions available in more than one block
        let mut seen: Vec<String> = Vec::new();
        let mut ab: usize = 0;
        while ab < avail.len()
            invariant
                ab <= avail@.len(),
                forall|e: int| 0 <= e < out@.len()
                    ==> opp_sound(#[trigger] out@[e], blocks@, live@, avail@, loops@),
                forall|b2: int, t2: int| 0 <= b2 < blocks@.len()
                    && 0 <= t2 < blocks@[b2].instructions@.len()
                    && dead_result(blocks@, live@, b2, t2)
                    ==> has_dce_entry(out@, (#[trigger] blocks@[b2].instructions@[t2]).result->0@, b2),
            decreases avail@.len() - ab,
        {
            let list = &avail[ab];
            let mut k: usize = 0;
            while k < list.len()
                invariant
                    k <= list@.len(),
                    ab < avail@.len(),
                    list@ == avail@[ab as int]@,
                    forall|e: int| 0 <= e < out@.len()
                        ==> opp_sound(#[trigger] out@[e], blocks@, live@, avail@, loops@),
                    forall|b2: int, t2: int| 0 <= b2 < blocks@.len()
                        && 0 <= t2 < blocks@[b2].instructions@.len()
                        && dead_result(blocks@, live@, b2, t2)
                        ==> has_dce_entry(out@, (#[trigger] blocks@[b2].instructions@[t2]).result->0@, b2),
                decreases list@.len() - k,
            {
                let ghost before = out@;
                let expr = &list[k];
                if !Self::mem_exec(&seen, expr) {
                    let mut occurrences: usize = 0;
                    let mut b3: usize = 0;
                    while b3 < avail.len()
                        invariant
                            b3 <= avail@.len(),
                            occurrences <= b3,
                            occurrences >= 1 ==> exists|b4: int| 0 <= b4 < b3
                                && mem_name((#[trigger] avail@[b4])@, expr@),
                            occurrences >= 2 ==> exists|b4: int, b5: int| 0 <= b4 < b5 < b3
                                && #[trigger] mem_name(avail@[b4]@, expr@)
                                && #[trigger] mem_name(avail@[b5]@, expr@),
                        decreases avail@.len() - b3,
                    {
                        if Self::mem_exec(&avail[b3], expr) {
                            proof {
                                if occurrences >= 1 {
                                    let b4 = choose|b4: int| 0 <= b4 < b3
                                        && mem_name((#[trigger] avail@[b4])@, expr@);
                                    assert(mem_name(avail@[b4]@, expr@)
                                        && mem_name(avail@[b3 as int]@, expr@) && b4 < b3 as int);
                                }
                            }
                            occurrences += 1;
                        }
                        b3 += 1;
                    }
                    if occurrences > 1 {
                        let mut desc = String::from_str("Common subexpression: ");
                        desc.append(expr.as_str());
                        out.push(OptimizationOpportunity {
                            opportunity_type: OptimizationType::CommonSubexpressionElimination,
                            description: desc,
                            affected_blocks: Vec::new(),
                            estimated_benefit: OptimizationBenefit::High,
                            prerequisites: vec![String::from_str("dominance_analysis")],
                        });
                        proof {
                            assert(cse_justified(out@[out@.len() - 1], avail@));
                            lemma_dce_preserved(before, out@);
                        }
                    }
                    seen.push(expr.clone());
                }
                k += 1;
            }
            ab += 1;
        }
        // loop opportunities
        let mut j: usize = 0;
        while j < loops.len()
            invariant
                j <= loops@.len(),
                forall|e: int| 0 <= e < out@.len()
                    ==> opp_sound(#[trigger] out@[e], blocks@, live@, avail@, loops@),
                forall|b2: int, t2: int| 0 <= b2 < blocks@.len()
                    && 0 <= t2 < blocks@[b2].instructions@.len()
                    && dead_result(blocks@, live@, b2, t2)
                    ==> has_dce_entry(out@, (#[trigger] blocks@[b2].instructions@[t2]).result->0@, b2),
                forall|j2: int| 0 <= j2 < j ==> exists|k: int| 0 <= k < out@.len()
                    && (#[trigger] out@[k]).opportunity_type == OptimizationType::LoopInvariantCodeMotion
                    && out@[k].affected_blocks@ == (#[trigger] loops@[j2]).body@,
                forall|j2: int| 0 <= j2 < j && (#[trigger] loops@[j2]).body@.len() < 10
                    ==> exists|k: int| 0 <= k < out@.len()
                        && (#[trigger] out@[k]).opportunity_type == OptimizationType::LoopUnrolling
                        && out@[k].affected_blocks@ == loops@[j2].body@,
            decreases loops@.len() - j,
        {
            let ghost before = out@;
            let lp = &loops[j];
            let licm = OptimizationOpportunity {
                opportunity_type: OptimizationType::LoopInvariantCodeMotion,
                description: String::from_str("Loop invariant code motion"),
                affected_blocks: Self::copy_indices(&lp.body),
                estimated_benefit: OptimizationBenefit::High,
                prerequisites: vec![String::from_str("loop_analysis")],
            };
            proof {
                assert(licm.affected_blocks@ == loops@[j as int].body@);
                assert(loop_opp_justified(licm, loops@));
            }
            out.push(licm);
            let ghost mid = out@;
            if lp.body.len() < 10 {
                let unroll = OptimizationOpportunity {
                    opportunity_type: OptimizationType::LoopUnrolling,
                    description: String::from_str("Loop unrolling"),
                    affected_blocks: Self::copy_indices(&lp.body),
                    estimated_benefit: OptimizationBenefit::Medium,
                    prerequisites: vec![String::from_str("trip_count_analysis")],
                };
                proof {
                    assert(unroll.affected_blocks@ == loops@[j as int].body@);
                    assert(loop_opp_justified(unroll, loops@));
                }
                out.push(unroll);
            }
            proof {
                lemma_dce_preserved(before, out@);
                assert forall|j2: int| 0 <= j2 < j + 1 implies exists|k: int| 0 <= k < out@.len()
                    && (#[trigger] out@[k]).opportunity_type == OptimizationType::LoopInvariantCodeMotion
                    && out@[k].affected_blocks@ == (#[trigger] loops@[j2]).body@ by {
                    if j2 < j {
                        let k0 = choose|k0: int| 0 <= k0 < before.len()
                            && (#[trigger] before[k0]).opportunity_type == OptimizationType::LoopInvariantCodeMotion
                            && before[k0].affected_blocks@ == loops@[j2].body@;
                        assert(out@[k0] == before[k0]);
                    } else {
                        assert(out@[before.len() as int].opportunity_type
                            == OptimizationType::LoopInvariantCodeMotion);
                        assert(out@[before.len() as int].affected_blocks@ == loops@[j2].body@);
                    }
                }
                assert forall|j2: int| 0 <= j2 < j + 1 && (#[trigger] loops@[j2]).body@.len() < 10
                    implies exists|k: int| 0 <= k < out@.len()
                        && (#[trigger] out@[k]).opportunity_type == OptimizationType::LoopUnrolling
                        && out@[k].affected_blocks@ == loops@[j2].body@ by {
                    if j2 < j {
                        let k0 = choose|k0: int| 0 <= k0 < before.len()
                            && (#[trigger] before[k0]).opportunity_type == OptimizationType::LoopUnrolling
                            && before[k0].affected_blocks@ == loops@[j2].body@;
                        assert(out@[k0] == before[k0]);
                    } else {
                        assert(out@[mid.len() as int].opportunity_type == OptimizationType::LoopUnrolling);
                        assert(out@[mid.len() as int].affected_blocks@ == loops@[j2].body@);
                    }
                }
            }
            j += 1;
        }
        let ghost before_vec = out@;
        out.push(OptimizationOpportunity {
            opportunity_type: OptimizationType::Vectorization,
            description: String::from_str("Vectorization opportunity"),
            affected_blocks: Vec::new(),
            estimated_benefit: OptimizationBenefit::High,
            prerequisites: vec![String::from_str("vector_analysis")],
        });
        proof {
            lemma_dce_preserved(before_vec, out@);
            assert forall|j2: int| 0 <= j2 < loops@.len() implies exists|k: int| 0 <= k < out@.len()
                && (#[trigger] out@[k]).opportunity_type == OptimizationType::LoopInvariantCodeMotion
                && out@[k].affected_blocks@ == (#[trigger] loops@[j2]).body@ by {
                let k0 = choose|k0: int| 0 <= k0 < before_vec.len()
                    && (#[trigger] before_vec[k0]).opportunity_type == OptimizationType::LoopInvariantCodeMotion
                    && before_vec[k0].affected_blocks@ == loops@[j2].body@;
                assert(out@[k0] == before_vec[k0]);
            }
            assert forall|j2: int| 0 <= j2 < loops@.len() && (#[trigger] loops@[j2]).body@.len() < 10
                implies exists|k: int| 0 <= k < out@.len()
                    && (#[trigger] out@[k]).opportunity_type == OptimizationType::LoopUnrolling
                    && out@[k].affected_blocks@ == loops@[j2].body@ by {
                let k0 = choose|k0: int| 0 <= k0 < before_vec.len()
                    && (#[trigger] before_vec[k0]).opportunity_type == OptimizationType::LoopUnrolling
                    && before_vec[k0].affected_blocks@ == loops@[j2].body@;
                assert(out@[k0] == before_vec[k0]);
            }
        }
        out
    }

    /// Copy a vector of block indices.
    fn copy_indices(v: &Vec<usize>) -> (r: Vec<usize>)
        ensures
            r@ == v@,
    {
        let mut r: Vec<usize> = Vec::new();
        let mut i: usize = 0;
        while i < v.len()
            invariant
                i <= v@.len(),
                r@ == v@.take(i as int),
            decreases v@.len() - i,
        {
            r.push(v[i]);
            proof {
                assert(v@.take(i + 1) =~= v@.take(i as int).push(v@[i as int]));
            }
            i += 1;
        }
        proof {
            assert(v@.take(v@.len() as int) =~= v@);
        }
        r
    }

    /// The indices whose row bit is set in the given column, over all rows.
    fn column_indices(dom: &Vec<Vec<bool>>, col: usize) -> (r: Vec<usize>)
        requires
            forall|b: int| 0 <= b < dom@.len() ==> col < (#[trigger] dom@[b])@.len(),
        ensures
            forall|k: int| 0 <= k < r@.len()
                ==> (#[trigger] r@[k]) < dom@.len() && dom@[r@[k] as int]@[col as int],
            forall|x: int| 0 <= x < dom@.len() && dom@[x]@[col as int]
                ==> r@.contains(x as usize),
    {
        let mut out: Vec<usize> = Vec::new();
        let mut b: usize = 0;
        while b < dom.len()
            invariant
                b <= dom@.len(),
                forall|b2: int| 0 <= b2 < dom@.len() ==> col < (#[trigger] dom@[b2])@.len(),
                forall|k: int| 0 <= k < out@.len()
                    ==> (#[trigger] out@[k]) < dom@.len() && dom@[out@[k] as int]@[col as int],
                forall|x: int| 0 <= x < b && dom@[x]@[col as int]
                    ==> out@.contains(x as usize),
            decreases dom@.len() - b,
        {
            let ghost before = out@;
            if dom[b][col] {
                out.push(b);
                proof {
                    assert(out@[out@.len() - 1] == b as usize);
                    assert forall|x: int| 0 <= x < b + 1 && dom@[x]@[col as int]
                        implies out@.contains(x as usize) by {
                        if x < b {
                            let k0 = choose|k0: int| 0 <= k0 < before.len() && before[k0] == x as usize;
                            assert(out@[k0] == x as usize);
                        } else {
                            assert(out@[out@.len() - 1] == x as usize);
                        }
                    }
                }
            }
            b += 1;
        }
        out
    }

    /// Fill each block's dominance lists from the dominator matrix:
    /// `dominated_by` holds the block's dominators, `dominates` the blocks
    /// it dominates.
    fn attach_dominance(blocks: Vec<ControlBlock>, dom: &Vec<Vec<bool>>) -> (r: Vec<ControlBlock>)
        requires
            dom@.len() == blocks@.len(),
            forall|b: int| 0 <= b < dom@.len() ==> (#[trigger] dom@[b])@.len() == blocks@.len(),
        ensures
            r@.len() == blocks@.len(),
            forall|b: int| 0 <= b < r@.len() ==> {
                &&& (#[trigger] r@[b]).id == blocks@[b].id
                &&& r@[b].block_type == blocks@[b].block_type
                &&& r@[b].predecessors == blocks@[b].predecessors
                &&& r@[b].successors == blocks@[b].successors
                &&& r@[b].instructions == blocks@[b].instructions
                &&& forall|k: int| 0 <= k < r@[b].dominated_by@.len()
                    ==> (#[trigger] r@[b].dominated_by@[k]) < blocks@.len()
                        && dom@[b]@[r@[b].dominated_by@[k] as int]
                &&& forall|x: int| 0 <= x < blocks@.len() && dom@[b]@[x]
                    ==> r@[b].dominated_by@.contains(x as usize)
                &&& forall|k: int| 0 <= k < r@[b].dominates@.len()
                    ==> (#[trigger] r@[b].dominates@[k]) < blocks@.len()
                        && dom@[r@[b].dominates@[k] as int]@[b]
                &&& forall|x: int| 0 <= x < blocks@.len() && dom@[x]@[b]
                    ==> r@[b].dominates@.contains(x as usize)
            },
    {
        let ghost orig = blocks@;
        let mut rest = blocks;
        let mut out: Vec<ControlBlock> = Vec::new();
        while rest.len() > 0
            invariant
                out@.len() + rest@.len() == orig.len(),
                rest@ == orig.subrange(out@.len() as int, orig.len() as int),
                dom@.len() == orig.len(),
                forall|b: int| 0 <= b < dom@.len() ==> (#[trigger] dom@[b])@.len() == orig.len(),
                forall|b: int| 0 <= b < out@.len() ==> {
                    &&& (#[trigger] out@[b]).id == orig[b].id
                    &&& out@[b].block_type == orig[b].block_type
                    &&& out@[b].predecessors == orig[b].predecessors
                    &&& out@[b].successors == orig[b].successors
                    &&& out@[b].instructions == orig[b].instructions
                    &&& forall|k: int| 0 <= k < out@[b].dominated_by@.len()
                        ==> (#[trigger] out@[b].dominated_by@[k]) < orig.len()
                            && dom@[b]@[out@[b].dominated_by@[k] as int]
                    &&& forall|x: int| 0 <= x < orig.len() && dom@[b]@[x]
                        ==> out@[b].dominated_by@.contains(x as usize)
                    &&& forall|k: int| 0 <= k < out@[b].dominates@.len()
                        ==> (#[trigger] out@[b].dominates@[k]) < orig.len()
                            && dom@[out@[b].dominates@[k] as int]@[b]
                    &&& forall|x: int| 0 <= x < orig.len() && dom@[x]@[b]
                        ==> out@[b].dominates@.contains(x as usize)
                },
            decreases rest@.len(),
        {
            let b = out.len();
            let block = rest.remove(0);
            proof {
                assert(block == orig[b as int]);
                assert(rest@ =~= orig.subrange(b + 1, orig.len() as int));
            }
            let dominated_by = Self::row_indices(&dom[b]);
            let dominates = Self::column_indices(dom, b);
            let ControlBlock { id, block_type, predecessors, successors, instructions, .. } = block;
            out.push(ControlBlock {
                id,
                block_type,
                predecessors,
                successors,
                instructions,
                dominates,
                dominated_by,
            });

        }
        out
    }

    /// Run the whole flow analysis: build the block arena, compute
    /// dominance and natural loops, the per-block dataflow summaries, and
    /// the derived optimization opportunities.
    pub fn analyze_flows(
        &self,
        intent: &ProgramIntent,
        semantic_model: &SemanticModel,
        type_model: &TypeModel,
    ) -> (r: FlowModel)
        ensures
            r.control_blocks@.len() == intent.control_flow.nodes@.len(),
            forall|b: int| 0 <= b < r.control_blocks@.len()
                ==> (#[trigger] r.control_blocks@[b]).id == intent.control_flow.nodes@[b].id
                    && r.control_blocks@[b].block_type
                        == spec_block_type(intent.control_flow.nodes@[b].node_type),
            forall|b: int| 0 <= b < r.control_blocks@.len()
                ==> block_edges_ok(#[trigger] r.control_blocks@[b], intent.control_flow.nodes@,
                    intent.control_flow.edges@, intent.control_flow.nodes@[b].id),
            r.dominator_sets@.len() == r.control_blocks@.len(),
            forall|b: int| 0 <= b < r.control_blocks@.len()
                && is_entry_block(r.control_blocks@, b)
                ==> forall|x: int| 0 <= x < r.control_blocks@.len()
                    ==> #[trigger] r.dominator_sets@[b]@[x] == (x == b),
            forall|b: int| 0 <= b < r.control_blocks@.len() ==> #[trigger] r.dominator_sets@[b]@[b],
            single_entry_rooted(r.control_blocks@)
                ==> forall|b: int, e: int| 0 <= b < r.control_blocks@.len()
                    && 0 <= e < r.control_blocks@.len()
                    && is_entry_block(r.control_blocks@, e)
                    ==> #[trigger] r.dominator_sets@[b]@[e],
            dominance_input_ok(r.control_blocks@)
                ==> dom_complete(r.dominator_sets@, r.control_blocks@),
            forall|b: int| 0 <= b < r.control_blocks@.len() ==> {
                &&& forall|k: int| 0 <= k < (#[trigger] r.control_blocks@[b]).dominated_by@.len()
                    ==> (#[trigger] r.control_blocks@[b].dominated_by@[k]) < r.control_blocks@.len()
                        && r.dominator_sets@[b]@[r.control_blocks@[b].dominated_by@[k] as int]
                &&& forall|x: int| 0 <= x < r.control_blocks@.len() && r.dominator_sets@[b]@[x]
                    ==> r.control_blocks@[b].dominated_by@.contains(x as usize)
                &&& forall|k: int| 0 <= k < r.control_blocks@[b].dominates@.len()
                    ==> (#[trigger] r.control_blocks@[b].dominates@[k]) < r.control_blocks@.len()
                        && r.dominator_sets@[r.control_blocks@[b].dominates@[k] as int]@[b]
                &&& forall|x: int| 0 <= x < r.control_blocks@.len() && r.dominator_sets@[x]@[b]
                    ==> r.control_blocks@[b].dominates@.contains(x as usize)
            },
            forall|k: int| 0 <= k < r.loop_analysis.natural_loops@.len()
                ==> natural_loop_ok(#[trigger] r.loop_analysis.natural_loops@[k],
                    r.control_blocks@, r.dominator_sets@),
            reaching_ok(r.control_blocks@, r.reaching_definitions@),
            r.live_variables@.len() == r.control_blocks@.len(),
            r.available_expressions@.len() == r.control_blocks@.len(),
            forall|k: int| 0 <= k < r.data_flows@.len()
                ==> (#[trigger] r.data_flows@[k]).flow_type == DataFlowType::DefUse
                    && r.data_flows@[k].distance == 1
                    && flow_justified(r.data_flows@[k], r.control_blocks@, r.reaching_definitions@),
            forall|b: int, t: int| 0 <= b < r.control_blocks@.len()
                && 0 <= t < r.control_blocks@[b].instructions@.len()
                ==> instr_flows_complete(r.data_flows@, #[trigger] r.control_blocks@[b].instructions@[t], r.reaching_definitions@),
            forall|e: int| 0 <= e < r.optimization_opportunities@.len()
                ==> opp_sound(#[trigger] r.optimization_opportunities@[e], r.control_blocks@,
                    r.live_variables@, r.available_expressions@, r.loop_analysis.natural_loops@),
            forall|b: int, t: int| 0 <= b < r.control_blocks@.len()
                && 0 <= t < r.control_blocks@[b].instructions@.len()
                && dead_result(r.control_blocks@, r.live_variables@, b, t)
                ==> has_dce_entry(r.optimization_opportunities@,
                    (#[trigger] r.control_blocks@[b].instructions@[t]).result->0@, b),
            forall|j: int| 0 <= j < r.loop_analysis.natural_loops@.len()
                ==> exists|k: int| 0 <= k < r.optimization_opportunities@.len()
                    && (#[trigger] r.optimization_opportunities@[k]).opportunity_type
                        == OptimizationType::LoopInvariantCodeMotion
                    && r.optimization_opportunities@[k].affected_blocks@
                        == (#[trigger] r.loop_analysis.natural_loops@[j]).body@,
            r.optimization_opportunities@.len() > 0,
            r.optimization_opportunities@[r.optimization_opportunities@.len() - 1].opportunity_type
                == OptimizationType::Vectorization,
    {
        let built = self.build_control_flow_graph(intent);
        proof {
            assert(blocks_wf(built@));
        }
        let dom = self.analyze_dominance(&built);
        proof {
            let mapped = dom@.map_values(|row: Vec<bool>| row@);
            assert(mapped.len() == built@.len());
            assert forall|b: int| 0 <= b < dom@.len()
                implies (#[trigger] dom@[b])@.len() == built@.len() by {
                assert(mapped[b] == dom@[b]@);
            }
        }
        let blocks = Self::attach_dominance(built, &dom);
        proof {
            assert(blocks_wf(blocks@)) by {
                assert forall|b: int| 0 <= b < blocks@.len() implies {
                    &&& forall|p: int| 0 <= p < (#[trigger] blocks@[b]).predecessors@.len()
                        ==> #[trigger] blocks@[b].predecessors@[p] < blocks@.len()
                    &&& forall|s: int| 0 <= s < blocks@[b].successors@.len()
                        ==> #[trigger] blocks@[b].successors@[s] < blocks@.len()
                } by {
                    assert(blocks@[b].predecessors == built@[b].predecessors);
                    assert(blocks@[b].successors == built@[b].successors);
                }
            }
        }
        proof {
            assert forall|b: int| 0 <= b < blocks@.len() && is_entry_block(blocks@, b)
                implies forall|x: int| 0 <= x < blocks@.len()
                    ==> #[trigger] dom@[b]@[x] == (x == b) by {
                assert(blocks@[b].block_type == built@[b].block_type);
                assert(is_entry_block(built@, b));
            }
            if single_entry_rooted(blocks@) {
                lemma_entry_counts_agree(blocks@, built@, blocks@.len() as int);
                assert forall|b: int| 0 <= b < built@.len() && !is_entry_block(built@, b)
                    implies (#[trigger] built@[b]).predecessors@.len() > 0 by {
                    assert(blocks@[b].block_type == built@[b].block_type);
                    assert(blocks@[b].predecessors == built@[b].predecessors);
                }
                assert(single_entry_rooted(built@));
            }
            assert forall|b: int| 0 <= b < blocks@.len()
                implies block_edges_ok(#[trigger] blocks@[b], intent.control_flow.nodes@,
                    intent.control_flow.edges@, intent.control_flow.nodes@[b].id) by {
                assert(blocks@[b].predecessors == built@[b].predecessors);
                assert(blocks@[b].successors == built@[b].successors);
                assert(block_edges_ok(built@[b], intent.control_flow.nodes@,
                    intent.control_flow.edges@, intent.control_flow.nodes@[b].id));
            }
            lemma_graph_facts_transfer(blocks@, built@);
            if dominance_input_ok(blocks@) {
                assert(dominance_input_ok(built@));
                assert(dom_complete(dom@, built@));
                assert forall|e: int, b2: int, x: int| 0 <= e < blocks@.len()
                    && 0 <= b2 < blocks@.len() && 0 <= x < blocks@.len()
                    && is_entry_block(blocks@, e)
                    && #[trigger] spec_dominates(blocks@, e, x, b2)
                    implies #[trigger] dom@[b2]@[x] by {
                    assert(is_entry_block(built@, e));
                    assert(spec_dominates(built@, e, x, b2));
                }
                assert(dom_complete(dom@, blocks@));
            }
        }
        let loops = self.analyze_loops(&blocks, &dom);
        let reaching = self.compute_reaching_definitions(&blocks);
        let live = self.compute_live_variables(&blocks);
        let avail = self.compute_available_expressions(&blocks);
        let data_flows = self.analyze_data_flows(&blocks, &reaching);
        let opportunities = self.identify_optimizations(&blocks, &live, &avail, &loops);
        FlowModel {
            control_blocks: blocks,
            data_flows,
            dominance_tree: DominanceTree {
                nodes: Vec::new(),
                root: 0,
                immediate_dominators: Vec::new(),
            },
            dominator_sets: dom,
            loop_analysis: LoopAnalysis {
                natural_loops: loops,
                loop_nesting_tree: LoopNestingTree {
                    root_loops: Vec::new(),
                    nesting_levels: Vec::new(),
                },
                induction_variables: Vec::new(),
            },
            reaching_definitions: reaching,
            live_variables: live,
            available_expressions: avail,
            optimization_opportunities: opportunities,
        }
    }

    /// The prompt for the flow-analysis oracle call; the reply only adds
    /// free-text insight and is not folded back into the model.
    pub fn flow_prompt(&self, intent: &ProgramIntent) -> (r: String)
        ensures
            r@ == "Review the control and data flow for advanced loop optimizations and parallelization opportunities. The block arena follows.\n"@,
    {
        String::from_str(
            "Review the control and data flow for advanced loop optimizations and parallelization opportunities. The block arena follows.\n",
        )
    }
}

} // verus!
