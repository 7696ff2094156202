//! Intent extraction: deterministic pattern matchers plus one oracle call
//! turn raw text into a `ProgramIntent` with operations, data structures, a
//! straight-line control-flow graph, constraints, detected ambiguities, and
//! metadata.

use vstd::prelude::*;
use vstd::string::StringExecFns;
use crate::text::{pattern_matches, pattern_second_captures, regex_match, regex_second_captures};
use crate::json::{get_array_elems, get_string_field, get_string_elems, get_field_text, millis_of_number};

verus! {

#[derive(Debug, Clone, Copy, PartialEq, Eq, Structural)]
pub enum ArithmeticOp {
    Add,
    Subtract,
    Multiply,
    Divide,
    Modulo,
    Power,
}

#[derive(Debug, Clone, Copy, PartialEq, Eq, Structural)]
pub enum ComparisonOp {
    Equal,
    NotEqual,
    LessThan,
    LessEqual,
    GreaterThan,
    GreaterEqual,
}

#[derive(Debug, Clone)]
pub enum OperationType {
    Arithmetic { operator: ArithmeticOp },
    Comparison { operator: ComparisonOp },
    Assignment { target: String },
    FunctionCall { name: String, args: Vec<String> },
    Loop { condition: String, body: Vec<String> },
    Conditional { condition: String, then_branch: Vec<String>, else_branch: Option<Vec<String>> },
    Input { prompt: Option<String> },
    Output { format: Option<String> },
    MemoryAllocation { size: Option<usize>, type_hint: Option<String> },
    SystemCall { call_type: String, parameters: Vec<String> },
}

/// One unit of extracted intent; `confidence` is in thousandths of a unit.
#[derive(Debug, Clone)]
pub struct Operation {
    pub id: usize,
    pub operation_type: OperationType,
    pub inputs: Vec<String>,
    pub outputs: Vec<String>,
    pub description: String,
    pub confidence: u32,
}

#[derive(Debug, Clone, Copy, PartialEq, Eq, Structural)]
pub enum FloatPrecision {
    Single,
    Double,
}

#[derive(Debug)]
pub enum DataType {
    Integer { bits: u8, signed: bool },
    Float { precision: FloatPrecision },
    String { max_length: Option<usize> },
    Boolean,
    Array { element_type: Box<DataType>, length: Option<usize> },
    Struct { fields: Vec<FieldDecl> },
    Pointer { target_type: Box<DataType> },
    Unknown,
}

/// A named field of a struct-valued data type.
#[derive(Debug)]
pub struct FieldDecl {
    pub name: String,
    pub field_type: DataType,
}

#[derive(Debug, Clone)]
pub enum Scope {
    Global,
    Function { name: String },
    Block { id: String },
}

#[derive(Debug)]
pub struct DataStructure {
    pub name: String,
    pub data_type: DataType,
    pub size: Option<usize>,
    pub initial_value: Option<String>,
    pub scope: Scope,
}

#[derive(Debug, Clone, Copy, PartialEq, Eq, Structural)]
pub enum ControlFlowNodeType {
    Entry,
    Exit,
    BasicBlock,
    Conditional,
    Loop,
    FunctionCall,
}

/// A node of the intent-level control-flow graph; nodes are identified by
/// integer ids, and `operations` lists the ids of the operations the node
/// carries.
#[derive(Debug, Clone)]
pub struct ControlFlowNode {
    pub id: usize,
    pub node_type: ControlFlowNodeType,
    pub operations: Vec<usize>,
}

#[derive(Debug, Clone, Copy, PartialEq, Eq, Structural)]
pub enum EdgeType {
    Unconditional,
    ConditionalTrue,
    ConditionalFalse,
    LoopBack,
    FunctionCall,
    FunctionReturn,
}

#[derive(Debug, Clone)]
pub struct ControlFlowEdge {
    pub from: usize,
    pub to: usize,
    pub condition: Option<String>,
    pub edge_type: EdgeType,
}

#[derive(Debug, Clone)]
pub struct ControlFlowGraph {
    pub nodes: Vec<ControlFlowNode>,
    pub edges: Vec<ControlFlowEdge>,
    pub entry_point: usize,
    pub exit_points: Vec<usize>,
}

#[derive(Debug, Clone, Copy, PartialEq, Eq, Structural)]
pub enum ConstraintType {
    TypeSafety,
    MemoryBounds,
    NullPointer,
    ResourceLeak,
    DeadCode,
    Performance,
}

#[derive(Debug, Clone, Copy, PartialEq, Eq, Structural)]
pub enum ConstraintSeverity {
    Error,
    Warning,
    Info,
}

#[derive(Debug, Clone)]
pub struct Constraint {
    pub constraint_type: ConstraintType,
    pub description: String,
    pub severity: ConstraintSeverity,
}

/// An intent element with several plausible interpretations; the
/// interpretation and confidence lists are parallel, and confidences are in
/// thousandths of a unit.
#[derive(Debug, Clone)]
pub struct Ambiguity {
    pub id: String,
    pub description: String,
    pub possible_interpretations: Vec<String>,
    pub context: String,
    pub confidence_scores: Vec<u32>,
}

impl Ambiguity {
    /// Every ambiguity carries one confidence score per possible
    /// interpretation, each within the unit interval.
    pub open spec fn wf(self) -> bool {
        &&& self.possible_interpretations@.len() == self.confidence_scores@.len()
        &&& forall|i: int| 0 <= i < self.confidence_scores@.len()
            ==> #[trigger] self.confidence_scores@[i] <= 1000
    }
}

/// Intent metadata; `complexity_score` is in thousandths of a unit.
#[derive(Debug, Clone)]
pub struct IntentMetadata {
    pub complexity_score: u32,
    pub estimated_runtime: Option<String>,
    pub memory_requirements: Option<usize>,
    pub system_dependencies: Vec<String>,
    pub optimization_hints: Vec<String>,
}

/// The root artifact of extraction.
#[derive(Debug)]
pub struct ProgramIntent {
    pub operations: Vec<Operation>,
    pub data_structures: Vec<DataStructure>,
    pub control_flow: ControlFlowGraph,
    pub constraints: Vec<Constraint>,
    pub ambiguities: Vec<Ambiguity>,
    pub metadata: IntentMetadata,
}

impl ProgramIntent {
    /// Operation ids are their positions, confidences sit in the unit
    /// interval, and every ambiguity is well formed.
    pub open spec fn wf(self) -> bool {
        &&& forall|i: int| 0 <= i < self.operations@.len()
            ==> (#[trigger] self.operations@[i]).id == i
        &&& forall|i: int| 0 <= i < self.operations@.len()
            ==> (#[trigger] self.operations@[i]).confidence <= 1000
        &&& forall|i: int| 0 <= i < self.ambiguities@.len()
            ==> (#[trigger] self.ambiguities@[i]).wf()
    }
}

/// Field-wise agreement of two operation types, over the views of their
/// text fields.
pub open spec fn op_type_like(a: OperationType, b: OperationType) -> bool {
    match (a, b) {
        (OperationType::Arithmetic { operator: x }, OperationType::Arithmetic { operator: y }) => x == y,
        (OperationType::Comparison { operator: x }, OperationType::Comparison { operator: y }) => x == y,
        (OperationType::Assignment { target: x }, OperationType::Assignment { target: y }) => x@ == y@,
        (
            OperationType::FunctionCall { name: xn, args: xa },
            OperationType::FunctionCall { name: yn, args: ya },
        ) => xn@ == yn@ && xa.deep_view() == ya.deep_view(),
        (
            OperationType::Loop { condition: xc, body: xb },
            OperationType::Loop { condition: yc, body: yb },
        ) => xc@ == yc@ && xb.deep_view() == yb.deep_view(),
        (
            OperationType::Conditional { condition: xc, then_branch: xt, else_branch: xe },
            OperationType::Conditional { condition: yc, then_branch: yt, else_branch: ye },
        ) => xc@ == yc@ && xt.deep_view() == yt.deep_view() && match (xe, ye) {
            (None, None) => true,
            (Some(xv), Some(yv)) => xv.deep_view() == yv.deep_view(),
            _ => false,
        },
        (OperationType::Input { prompt: x }, OperationType::Input { prompt: y }) => match (x, y) {
            (None, None) => true,
            (Some(xs), Some(ys)) => xs@ == ys@,
            _ => false,
        },
        (OperationType::Output { format: x }, OperationType::Output { format: y }) => match (x, y) {
            (None, None) => true,
            (Some(xs), Some(ys)) => xs@ == ys@,
            _ => false,
        },
        (
            OperationType::MemoryAllocation { size: xs, type_hint: xh },
            OperationType::MemoryAllocation { size: ys, type_hint: yh },
        ) => xs == ys && match (xh, yh) {
            (None, None) => true,
            (Some(xv), Some(yv)) => xv@ == yv@,
            _ => false,
        },
        (
            OperationType::SystemCall { call_type: xc, parameters: xp },
            OperationType::SystemCall { call_type: yc, parameters: yp },
        ) => xc@ == yc@ && xp.deep_view() == yp.deep_view(),
        _ => false,
    }
}

/// Copy a vector of strings, keeping the views.
pub fn copy_strings(v: &Vec<String>) -> (r: Vec<String>)
    ensures
        r.deep_view() == v.deep_view(),
{
    let mut r: Vec<String> = Vec::new();
    let mut i: usize = 0;
    while i < v.len()
        invariant
            i <= v@.len(),
            r@.len() == i,
            forall|k: int| 0 <= k < i ==> (#[trigger] r@[k])@ == v@[k]@,
        decreases v@.len() - i,
    {
        r.push(v[i].clone());
        i += 1;
    }
    proof {
        assert forall|k: int| 0 <= k < r.deep_view().len()
            implies r.deep_view()[k] == v.deep_view()[k] by {
            assert(r@[k]@ == v@[k]@);
        }
        assert(r.deep_view() =~= v.deep_view());
    }
    r
}

/// Copy an operation type, keeping the views of its text fields.
pub fn copy_operation_type(t: &OperationType) -> (r: OperationType)
    ensures
        op_type_like(r, *t),
{
    match t {
        OperationType::Arithmetic { operator } => OperationType::Arithmetic { operator: *operator },
        OperationType::Comparison { operator } => OperationType::Comparison { operator: *operator },
        OperationType::Assignment { target } => OperationType::Assignment { target: target.clone() },
        OperationType::FunctionCall { name, args } => OperationType::FunctionCall {
            name: name.clone(),
            args: copy_strings(args),
        },
        OperationType::Loop { condition, body } => OperationType::Loop {
            condition: condition.clone(),
            body: copy_strings(body),
        },
        OperationType::Conditional { condition, then_branch, else_branch } => OperationType::Conditional {
            condition: condition.clone(),
            then_branch: copy_strings(then_branch),
            else_branch: match else_branch {
                None => None,
                Some(v) => Some(copy_strings(v)),
            },
        },
        OperationType::Input { prompt } => OperationType::Input {
            prompt: match prompt {
                None => None,
                Some(p) => Some(p.clone()),
            },
        },
        OperationType::Output { format } => OperationType::Output {
            format: match format {
                None => None,
                Some(f) => Some(f.clone()),
            },
        },
        OperationType::MemoryAllocation { size, type_hint } => OperationType::MemoryAllocation {
            size: *size,
            type_hint: match type_hint {
                None => None,
                Some(h) => Some(h.clone()),
            },
        },
        OperationType::SystemCall { call_type, parameters } => OperationType::SystemCall {
            call_type: call_type.clone(),
            parameters: copy_strings(parameters),
        },
    }
}

/// The fixed pattern table: the regular expression of each matcher.
pub open spec fn matcher_pattern(j: int) -> Seq<char> {
    if j == 0 {
        "(?i)(add|sum|plus|\\+|calculate.*sum)"@
    } else if j == 1 {
        "(?i)(multiply|times|\\*|product)"@
    } else if j == 2 {
        "(?i)(ask|input|read|get.*from.*user)"@
    } else if j == 3 {
        "(?i)(print|display|show|output|write)"@
    } else {
        "(?i)(loop|repeat|while|for|iterate)"@
    }
}

/// The fixed pattern table: the name of each matcher.
pub open spec fn matcher_name(j: int) -> Seq<char> {
    if j == 0 {
        "addition"@
    } else if j == 1 {
        "multiplication"@
    } else if j == 2 {
        "input"@
    } else if j == 3 {
        "output"@
    } else {
        "loop"@
    }
}

/// The operation type each matcher produces.
pub open spec fn matcher_output_ok(j: int, t: OperationType) -> bool {
    if j == 0 {
        t == (OperationType::Arithmetic { operator: ArithmeticOp::Add })
    } else if j == 1 {
        t == (OperationType::Arithmetic { operator: ArithmeticOp::Multiply })
    } else if j == 2 {
        t matches OperationType::Input { prompt } && prompt is None
    } else if j == 3 {
        t matches OperationType::Output { format } && format is None
    } else {
        t matches OperationType::Loop { condition, body }
            && condition@ == "unknown"@ && body@.len() == 0
    }
}

/// How many of the first `upto` matchers match the input.
pub open spec fn matched_count(input: Seq<char>, upto: int) -> int
    decreases upto,
{
    if upto <= 0 {
        0
    } else {
        matched_count(input, upto - 1) + if regex_match(matcher_pattern(upto - 1), input) {
            1int
        } else {
            0int
        }
    }
}

pub proof fn lemma_matched_count_bounds(input: Seq<char>, upto: int)
    requires
        upto >= 0,
    ensures
        0 <= matched_count(input, upto) <= upto,
        forall|j: int| 0 <= j < upto ==> #[trigger] matched_count(input, j) < matched_count(input, upto)
            || matched_count(input, j) == matched_count(input, upto),
    decreases upto,
{
    if upto > 0 {
        lemma_matched_count_bounds(input, upto - 1);
    }
}

/// One operation as the pattern pass makes it: empty inputs and outputs, a
/// fixed confidence of 0.8, the matcher's operation type, and the matcher's
/// name in the description.
pub open spec fn is_pattern_op(op: Operation, input: Seq<char>, j: int) -> bool {
    &&& op.id == matched_count(input, j)
    &&& matcher_output_ok(j, op.operation_type)
    &&& op.inputs@.len() == 0
    &&& op.outputs@.len() == 0
    &&& op.confidence == 800
    &&& op.description@ == "Pattern matched: "@ + matcher_name(j)
}

/// The operations the pattern pass yields for `input`: one per matching
/// matcher, in table order.
pub open spec fn pattern_ops_ok(input: Seq<char>, ops: Seq<Operation>, upto: int) -> bool {
    &&& ops.len() == matched_count(input, upto)
    &&& forall|j: int| 0 <= j < upto && regex_match(matcher_pattern(j), input)
        ==> is_pattern_op(#[trigger] ops[matched_count(input, j)], input, j)
}

/// Re-running the pattern pass on identical input yields identical
/// operations: any two operation sequences that satisfy the pattern pass's
/// contract for the same input agree in length and, element by element, in
/// id, operation type, inputs, outputs, confidence, and description.
pub proof fn lemma_pattern_ops_deterministic(input: Seq<char>, a: Seq<Operation>, b: Seq<Operation>)
    requires
        pattern_ops_ok(input, a, 5),
        pattern_ops_ok(input, b, 5),
    ensures
        a.len() == b.len(),
        forall|k: int| 0 <= k < a.len() ==> op_agrees(#[trigger] a[k], b[k]),
{
    assert forall|k: int| 0 <= k < a.len() implies op_agrees(#[trigger] a[k], b[k]) by {
        lemma_matched_index_exists(input, 5, k);
        let j = choose|j: int| 0 <= j < 5 && regex_match(matcher_pattern(j), input)
            && matched_count(input, j) == k;
        assert(is_pattern_op(a[k], input, j));
        assert(is_pattern_op(b[k], input, j));
        lemma_same_pattern_op_agrees(a[k], b[k], input, j);
    }
}

/// Two operations both made by matcher `j` agree.
proof fn lemma_same_pattern_op_agrees(x: Operation, y: Operation, input: Seq<char>, j: int)
    requires
        is_pattern_op(x, input, j),
        is_pattern_op(y, input, j),
        0 <= j < 5,
    ensures
        op_agrees(x, y),
{
    assert(x.inputs.deep_view() =~= y.inputs.deep_view());
    assert(x.outputs.deep_view() =~= y.outputs.deep_view());
    match (&x.operation_type, &y.operation_type) {
        (
            OperationType::Loop { condition: xc, body: xb },
            OperationType::Loop { condition: yc, body: yb },
        ) => {
            assert(xb.deep_view() =~= yb.deep_view());
        },
        _ => {},
    }
    assert(op_type_like(x.operation_type, y.operation_type));
}

/// Every position below the total match count is produced by some matcher.
proof fn lemma_matched_index_exists(input: Seq<char>, upto: int, k: int)
    requires
        0 <= k < matched_count(input, upto),
        upto >= 0,
    ensures
        exists|j: int| 0 <= j < upto && regex_match(matcher_pattern(j), input)
            && matched_count(input, j) == k,
    decreases upto,
{
    lemma_matched_count_bounds(input, upto);
    if upto > 0 {
        if regex_match(matcher_pattern(upto - 1), input) && matched_count(input, upto - 1) == k {
            assert(0 <= upto - 1 < upto && regex_match(matcher_pattern(upto - 1), input)
                && matched_count(input, upto - 1) == k);
        } else {
            lemma_matched_count_bounds(input, upto - 1);
            lemma_matched_index_exists(input, upto - 1, k);
            let j = choose|j: int| 0 <= j < upto - 1 && regex_match(matcher_pattern(j), input)
                && matched_count(input, j) == k;
            assert(0 <= j < upto && regex_match(matcher_pattern(j), input)
                && matched_count(input, j) == k);
        }
    }
}

/// Field-wise agreement of two ambiguities.
pub open spec fn ambiguity_agrees(a: Ambiguity, b: Ambiguity) -> bool {
    &&& a.id@ == b.id@
    &&& a.description@ == b.description@
    &&& a.possible_interpretations.deep_view() == b.possible_interpretations.deep_view()
    &&& a.context@ == b.context@
    &&& a.confidence_scores@ == b.confidence_scores@
}

/// Re-running detection on identical input yields identical ambiguities:
/// any two ambiguity lists that satisfy the detection contract for the
/// same input agree in length and, element by element, in every field.
pub proof fn lemma_ambiguities_deterministic(input: Seq<char>, a: Seq<Ambiguity>, b: Seq<Ambiguity>)
    requires
        ambiguities_ok(input, a),
        ambiguities_ok(input, b),
    ensures
        a.len() == b.len(),
        forall|k: int| 0 <= k < a.len() ==> ambiguity_agrees(#[trigger] a[k], b[k]),
{
    assert forall|k: int| 0 <= k < a.len() implies ambiguity_agrees(#[trigger] a[k], b[k]) by {
        let p = has_pronoun_trigger(input);
        let o = has_operation_trigger(input);
        if p && k == 0 {
            assert(is_pronoun_ambiguity(a[0], input));
            assert(is_pronoun_ambiguity(b[0], input));
        } else {
            assert(is_operation_ambiguity(a[k], input));
            assert(is_operation_ambiguity(b[k], input));
        }
    }
}

/// Agreement of two operations: equal ids, confidences, operation types and
/// text-field views.
pub open spec fn op_agrees(a: Operation, b: Operation) -> bool {
    &&& a.id == b.id
    &&& op_type_like(a.operation_type, b.operation_type)
    &&& a.inputs.deep_view() == b.inputs.deep_view()
    &&& a.outputs.deep_view() == b.outputs.deep_view()
    &&& a.description@ == b.description@
    &&& a.confidence == b.confidence
}

pub struct PatternMatcher {
    pub name: String,
    pub pattern: String,
    pub operation_type: OperationType,
}

/// Intent extraction: a fixed ordered list of pattern matchers plus the
/// decoding of one oracle reply.
pub struct IntentExtractor {
    pattern_matchers: Vec<PatternMatcher>,
}

impl IntentExtractor {
    pub closed spec fn wf(self) -> bool {
        &&& self.pattern_matchers@.len() == 5
        &&& forall|j: int| 0 <= j < 5 ==> {
            &&& (#[trigger] self.pattern_matchers@[j]).pattern@ == matcher_pattern(j)
            &&& self.pattern_matchers@[j].name@ == matcher_name(j)
            &&& matcher_output_ok(j, self.pattern_matchers@[j].operation_type)
        }
    }

    pub fn new() -> (r: IntentExtractor)
        ensures
            r.wf(),
    {
        let mut matchers: Vec<PatternMatcher> = Vec::new();
        matchers.push(PatternMatcher {
            name: String::from_str("addition"),
            pattern: String::from_str("(?i)(add|sum|plus|\\+|calculate.*sum)"),
            operation_type: OperationType::Arithmetic { operator: ArithmeticOp::Add },
        });
        matchers.push(PatternMatcher {
            name: String::from_str("multiplication"),
            pattern: String::from_str("(?i)(multiply|times|\\*|product)"),
            operation_type: OperationType::Arithmetic { operator: ArithmeticOp::Multiply },
        });
        matchers.push(PatternMatcher {
            name: String::from_str("input"),
            pattern: String::from_str("(?i)(ask|input|read|get.*from.*user)"),
            operation_type: OperationType::Input { prompt: None },
        });
        matchers.push(PatternMatcher {
            name: String::from_str("output"),
            pattern: String::from_str("(?i)(print|display|show|output|write)"),
            operation_type: OperationType::Output { format: None },
        });
        matchers.push(PatternMatcher {
            name: String::from_str("loop"),
            pattern: String::from_str("(?i)(loop|repeat|while|for|iterate)"),
            operation_type: OperationType::Loop {
                condition: String::from_str("unknown"),
                body: Vec::new(),
            },
        });
        IntentExtractor { pattern_matchers: matchers }
    }

    /// First extraction pass: one operation per matching pattern.
    pub fn extract_operations_with_patterns(&self, input: &str) -> (r: Vec<Operation>)
        requires
            self.wf(),
        ensures
            pattern_ops_ok(input@, r@, 5),
            r@.len() <= 5,
    {
        let mut operations: Vec<Operation> = Vec::new();
        let mut j: usize = 0;
        while j < 5
            invariant
                self.wf(),
                j <= 5,
                operations@.len() == matched_count(input@, j as int),
                operations@.len() <= j,
                pattern_ops_ok(input@, operations@, j as int),
            decreases 5 - j,
        {
            let matcher = &self.pattern_matchers[j];
            if pattern_matches(matcher.pattern.as_str(), input) {
                let mut description = String::from_str("Pattern matched: ");
                description.append(matcher.name.as_str());
                let op = Operation {
                    id: operations.len(),
                    operation_type: copy_operation_type(&matcher.operation_type),
                    inputs: Vec::new(),
                    outputs: Vec::new(),
                    description,
                    confidence: 800,
                };
                proof {
                    assert(matcher_output_ok(j as int, op.operation_type)) by {
                        assert(op_type_like(op.operation_type, matcher.operation_type));
                        assert(matcher_output_ok(j as int, matcher.operation_type));
                        match (&op.operation_type, &matcher.operation_type) {
                            (
                                OperationType::Loop { condition: c2, body: b2 },
                                OperationType::Loop { condition: c1, body: b1 },
                            ) => {
                                assert(c2@ == c1@);
                                assert(b2.deep_view().len() == b1.deep_view().len());
                                assert(b2@.len() == 0);
                            },
                            _ => {},
                        }
                    }
                    assert(is_pattern_op(op, input@, j as int));
                }
                let ghost entry_ops = operations@;
                operations.push(op);
                proof {
                    assert(operations@.len() == matched_count(input@, j + 1));
                    assert forall|j2: int|
                        0 <= j2 < j + 1 && regex_match(matcher_pattern(j2), input@)
                        implies is_pattern_op(
                            #[trigger] operations@[matched_count(input@, j2)],
                            input@,
                            j2,
                        ) by {
                        lemma_matched_count_bounds(input@, j as int);
                        if j2 < j {
                            assert(matched_count(input@, j2 + 1) == matched_count(input@, j2) + 1);
                            assert(matched_count(input@, j2) < matched_count(input@, j as int));
                            assert(operations@[matched_count(input@, j2)]
                                == entry_ops[matched_count(input@, j2)]);
                            assert(is_pattern_op(entry_ops[matched_count(input@, j2)], input@, j2));
                        } else {
                            assert(j2 == j);
                            assert(operations@[matched_count(input@, j2)] == op);
                        }
                    }
                }
            } else {
                proof {
                    assert(matched_count(input@, j + 1) == matched_count(input@, j as int));
                    assert forall|j2: int|
                        0 <= j2 < j + 1 && regex_match(matcher_pattern(j2), input@)
                        implies is_pattern_op(
                            #[trigger] operations@[matched_count(input@, j2)],
                            input@,
                            j2,
                        ) by {
                        assert(j2 < j);
                        assert(is_pattern_op(operations@[matched_count(input@, j2)], input@, j2));
                    }
                }
            }
            j += 1;
        }
        proof {
            lemma_matched_count_bounds(input@, 5);
        }
        operations
    }

    /// Second extraction pass: named numbers and arrays found by the two
    /// data-structure patterns.
    pub fn extract_data_structures_with_patterns(&self, input: &str) -> (r: Vec<DataStructure>)
        ensures
            pattern_ds_ok(input@, r@),
    {
        let number_caps = pattern_second_captures("(?i)(number|integer|value|variable)\\s+(\\w+)", input);
        let array_caps = pattern_second_captures("(?i)(array|list)\\s+of\\s+(\\w+)", input);
        let ghost caps1 = regex_second_captures(number_pattern(), input@);
        let ghost caps2 = regex_second_captures(array_pattern(), input@);
        let mut out: Vec<DataStructure> = Vec::new();
        let mut i: usize = 0;
        while i < number_caps.len()
            invariant
                i <= number_caps@.len(),
                number_caps@.len() == caps1.len(),
                forall|k: int| 0 <= k < caps1.len() ==> (#[trigger] number_caps@[k])@ == caps1[k],
                out@.len() == i,
                forall|k: int| 0 <= k < i ==> is_number_ds(#[trigger] out@[k], caps1[k]),
            decreases number_caps@.len() - i,
        {
            out.push(DataStructure {
                name: number_caps[i].clone(),
                data_type: DataType::Integer { bits: 32, signed: true },
                size: None,
                initial_value: None,
                scope: Scope::Global,
            });
            i += 1;
        }
        let mut i2: usize = 0;
        while i2 < array_caps.len()
            invariant
                i2 <= array_caps@.len(),
                array_caps@.len() == caps2.len(),
                forall|k: int| 0 <= k < caps2.len() ==> (#[trigger] array_caps@[k])@ == caps2[k],
                out@.len() == caps1.len() + i2,
                forall|k: int| 0 <= k < caps1.len() ==> is_number_ds(#[trigger] out@[k], caps1[k]),
                forall|k: int| 0 <= k < i2
                    ==> is_array_ds(#[trigger] out@[caps1.len() + k], caps2[k]),
            decreases array_caps@.len() - i2,
        {
            let mut name = array_caps[i2].clone();
            name.append("_array");
            out.push(DataStructure {
                name,
                data_type: DataType::Array {
                    element_type: Box::new(DataType::Integer { bits: 32, signed: true }),
                    length: None,
                },
                size: None,
                initial_value: None,
                scope: Scope::Global,
            });
            i2 += 1;
        }
        out
    }

    /// Scan the input for ambiguity triggers: bare pronouns, and the word
    /// "calculate" without a disambiguating operation verb.
    pub fn detect_ambiguities(&self, input: &str) -> (r: Vec<Ambiguity>)
        ensures
            ambiguities_ok(input@, r@),
            forall|i: int| 0 <= i < r@.len() ==> (#[trigger] r@[i]).wf(),
    {
        let mut out: Vec<Ambiguity> = Vec::new();
        if pattern_matches("(?i)\\b(it|this|that|them|they)\\b", input) {
            let mut interkinds: Vec<String> = Vec::new();
            interkinds.push(String::from_str("Refers to previously mentioned variable"));
            interkinds.push(String::from_str("Refers to result of previous operation"));
            let mut scores: Vec<u32> = Vec::new();
            scores.push(600);
            scores.push(400);
            proof {
                assert(scores@ =~= seq![600u32, 400u32]);
            }
            let amb = Ambiguity {
                id: String::from_str("pronoun_ambiguity"),
                description: String::from_str("Ambiguous pronoun reference detected"),
                possible_interpretations: interkinds,
                context: String::from_str(input),
                confidence_scores: scores,
            };
            proof {
                assert(amb.possible_interpretations.deep_view() =~= seq![
                    "Refers to previously mentioned variable"@,
                    "Refers to result of previous operation"@,
                ]);
                assert(is_pronoun_ambiguity(amb, input@));
            }
            out.push(amb);
        }
        if pattern_matches("(?i)calculate", input) && !pattern_matches("(?i)add", input)
            && !pattern_matches("(?i)multiply", input) {
            let mut interkinds: Vec<String> = Vec::new();
            interkinds.push(String::from_str("Addition operation"));
            interkinds.push(String::from_str("Multiplication operation"));
            interkinds.push(String::from_str("Complex mathematical formula"));
            let mut scores: Vec<u32> = Vec::new();
            scores.push(400);
            scores.push(300);
            scores.push(300);
            proof {
                assert(scores@ =~= seq![400u32, 300u32, 300u32]);
            }
            let amb = Ambiguity {
                id: String::from_str("operation_ambiguity"),
                description: String::from_str("Ambiguous calculation operation"),
                possible_interpretations: interkinds,
                context: String::from_str(input),
                confidence_scores: scores,
            };
            proof {
                assert(amb.possible_interpretations.deep_view() =~= seq![
                    "Addition operation"@,
                    "Multiplication operation"@,
                    "Complex mathematical formula"@,
                ]);
                assert(is_operation_ambiguity(amb, input@));
            }
            out.push(amb);
        }
        out
    }

    /// Synthesize the control-flow graph: a straight-line chain from the
    /// entry node through one basic block per operation to the exit node.
    pub fn build_control_flow_graph(&self, operations: &Vec<Operation>) -> (r: ControlFlowGraph)
        requires
            operations@.len() <= usize::MAX - 2,
        ensures
            straight_line_cfg(r, operations@),
    {
        let n = operations.len();
        let mut nodes: Vec<ControlFlowNode> = Vec::new();
        nodes.push(ControlFlowNode {
            id: 0,
            node_type: ControlFlowNodeType::Entry,
            operations: Vec::new(),
        });
        let mut i: usize = 0;
        while i < n
            invariant
                i <= n,
                n == operations@.len(),
                n <= usize::MAX - 2,
                nodes@.len() == i + 1,
                nodes@[0].id == 0,
                nodes@[0].node_type == ControlFlowNodeType::Entry,
                nodes@[0].operations@.len() == 0,
                forall|k: int| 0 <= k < i ==> is_block_node(#[trigger] nodes@[k + 1], k + 1, operations@[k].id),
            decreases n - i,
        {
            let mut op_ids: Vec<usize> = Vec::new();
            op_ids.push(operations[i].id);
            proof {
                assert(op_ids@ =~= seq![operations@[i as int].id]);
            }
            nodes.push(ControlFlowNode {
                id: i + 1,
                node_type: ControlFlowNodeType::BasicBlock,
                operations: op_ids,
            });
            i += 1;
        }
        nodes.push(ControlFlowNode {
            id: n + 1,
            node_type: ControlFlowNodeType::Exit,
            operations: Vec::new(),
        });
        let mut edges: Vec<ControlFlowEdge> = Vec::new();
        let mut e: usize = 0;
        while e < n + 1
            invariant
                e <= n + 1,
                n <= usize::MAX - 2,
                edges@.len() == e,
                forall|k: int| 0 <= k < e ==> is_chain_edge(#[trigger] edges@[k], k),
            decreases n + 1 - e,
        {
            edges.push(ControlFlowEdge {
                from: e,
                to: e + 1,
                condition: None,
                edge_type: EdgeType::Unconditional,
            });
            e += 1;
        }
        let mut exits: Vec<usize> = Vec::new();
        exits.push(n + 1);
        proof {
            assert(exits@ =~= seq![(n + 1) as usize]);
        }
        ControlFlowGraph {
            nodes,
            edges,
            entry_point: 0,
            exit_points: exits,
        }
    }

    /// Derive static-analysis constraints from the text and the operations.
    pub fn extract_constraints(&self, input: &str, operations: &Vec<Operation>) -> (r: Vec<Constraint>)
        ensures
            constraints_ok(input@, operations@, r@),
    {
        let mut out: Vec<Constraint> = Vec::new();
        if pattern_matches("(?i)(pointer|reference)", input) {
            out.push(Constraint {
                constraint_type: ConstraintType::NullPointer,
                description: String::from_str("Potential null pointer dereference detected"),
                severity: ConstraintSeverity::Warning,
            });
        }
        if pattern_matches("(?i)(array|index)", input) {
            out.push(Constraint {
                constraint_type: ConstraintType::MemoryBounds,
                description: String::from_str("Array bounds checking required"),
                severity: ConstraintSeverity::Error,
            });
        }
        let ghost base = out@.len();
        let mut i: usize = 0;
        while i < operations.len()
            invariant
                i <= operations@.len(),
                out@.len() == base + count_loops(operations@, i as int),
                base + count_loops(operations@, i as int) <= base + i,
                forall|k: int| 0 <= k < base ==> out@[k] == out@.subrange(0, base as int)[k],
                constraint_prefix_ok(input@, out@, base as int),
                forall|k: int| base <= k < out@.len() ==> is_perf_constraint(#[trigger] out@[k]),
            decreases operations@.len() - i,
        {
            let is_loop = match &operations[i].operation_type {
                OperationType::Loop { .. } => true,
                _ => false,
            };
            if is_loop {
                out.push(Constraint {
                    constraint_type: ConstraintType::Performance,
                    description: String::from_str("Loop optimization opportunity"),
                    severity: ConstraintSeverity::Info,
                });
            }
            i += 1;
        }
        out
    }

    /// Complexity in thousandths: one tenth per operation plus three tenths
    /// per loop operation, clamped to one.
    pub fn calculate_complexity_score(&self, operations: &Vec<Operation>) -> (r: u32)
        ensures
            r == spec_complexity(operations@),
    {
        let n = operations.len();
        if n >= 10 {
            proof {
                lemma_count_loops_bounds(operations@, n as int);
            }
            return 1000;
        }
        let mut loops: usize = 0;
        let mut i: usize = 0;
        while i < n
            invariant
                i <= n,
                n == operations@.len(),
                n < 10,
                loops == count_loops(operations@, i as int),
                loops <= i,
            decreases n - i,
        {
            let is_loop = match &operations[i].operation_type {
                OperationType::Loop { .. } => true,
                _ => false,
            };
            if is_loop {
                loops += 1;
            }
            i += 1;
        }
        let score = (n as u32) * 100 + (loops as u32) * 300;
        if score > 1000 {
            1000
        } else {
            score
        }
    }

    /// Sum the data structures' estimated byte sizes, saturating at the
    /// machine word.
    pub fn estimate_memory_requirements(&self, data_structures: &Vec<DataStructure>) -> (r: usize)
        ensures
            r == sat_usize(sum_data_sizes(data_structures@, data_structures@.len() as int)),
    {
        let mut total: usize = 0;
        let mut i: usize = 0;
        while i < data_structures.len()
            invariant
                i <= data_structures@.len(),
                total == sat_usize(sum_data_sizes(data_structures@, i as int)),
            decreases data_structures@.len() - i,
        {
            let size = data_size(&data_structures[i].data_type);
            if total > usize::MAX - size {
                total = usize::MAX;
            } else {
                total = total + size;
            }
            i += 1;
        }
        total
    }

    /// Scan the text for system dependencies: files, network, time.
    pub fn detect_system_dependencies(&self, input: &str) -> (r: Vec<String>)
        ensures
            dependencies_ok(input@, r@),
    {
        let mut out: Vec<String> = Vec::new();
        if pattern_matches("(?i)(file|read)", input) {
            out.push(String::from_str("filesystem"));
        }
        if pattern_matches("(?i)(network|http)", input) {
            out.push(String::from_str("network"));
        }
        if pattern_matches("(?i)(time|date)", input) {
            out.push(String::from_str("time"));
        }
        out
    }

    /// Optimization hints: unrolling when loops occur, vectorization when
    /// more than three arithmetic operations occur.
    pub fn generate_optimization_hints(&self, operations: &Vec<Operation>) -> (r: Vec<String>)
        ensures
            hints_ok(operations@, r@),
    {
        let n = operations.len();
        let mut loops: usize = 0;
        let mut arith: usize = 0;
        let mut i: usize = 0;
        while i < n
            invariant
                i <= n,
                n == operations@.len(),
                loops == count_loops(operations@, i as int),
                arith == count_arith(operations@, i as int),
                loops <= i,
                arith <= i,
            decreases n - i,
        {
            match &operations[i].operation_type {
                OperationType::Loop { .. } => {
                    loops += 1;
                },
                OperationType::Arithmetic { .. } => {
                    arith += 1;
                },
                _ => {},
            }
            i += 1;
        }
        let mut out: Vec<String> = Vec::new();
        if loops > 0 {
            out.push(String::from_str("Consider loop unrolling for performance"));
        }
        if arith > 3 {
            out.push(String::from_str("Vectorization opportunity detected"));
        }
        out
    }

    /// Assemble the intent metadata.
    pub fn generate_metadata(
        &self,
        input: &str,
        operations: &Vec<Operation>,
        data_structures: &Vec<DataStructure>,
    ) -> (r: IntentMetadata)
        ensures
            metadata_ok(input@, operations@, data_structures@, r),
    {
        IntentMetadata {
            complexity_score: self.calculate_complexity_score(operations),
            estimated_runtime: Some(String::from_str("O(n)")),
            memory_requirements: Some(self.estimate_memory_requirements(data_structures)),
            system_dependencies: self.detect_system_dependencies(input),
            optimization_hints: self.generate_optimization_hints(operations),
        }
    }
}

/// Byte size of one data type, from the same table the type inferencer
/// uses: integers by their width, floats by their precision, booleans one
/// byte, strings a 24-byte header, fixed arrays element size times length,
/// dynamic arrays a 16-byte header, structs the sum of their field sizes,
/// and a machine word for pointers and unknowns.
pub open spec fn spec_data_size(dt: DataType) -> nat
    decreases dt,
{
    match dt {
        DataType::Integer { bits, .. } => (bits / 8) as nat,
        DataType::Float { precision } => match precision {
            FloatPrecision::Single => 4,
            FloatPrecision::Double => 8,
        },
        DataType::String { .. } => 24,
        DataType::Boolean => 1,
        DataType::Array { element_type, length } => match length {
            Some(l) => spec_data_size(*element_type) * (l as nat),
            None => 16,
        },
        DataType::Struct { fields } => sum_field_data_sizes(fields@, fields@.len() as int),
        _ => 8,
    }
}

/// The summed byte sizes of the first `upto` struct fields.
pub open spec fn sum_field_data_sizes(fields: Seq<FieldDecl>, upto: int) -> nat
    decreases fields, upto,
        via check_sum_field_data_sizes_decreases
{
    if upto <= 0 || upto > fields.len() {
        0
    } else {
        sum_field_data_sizes(fields, upto - 1) + spec_data_size(fields[upto - 1].field_type)
    }
}

#[via_fn]
proof fn check_sum_field_data_sizes_decreases(fields: Seq<FieldDecl>, upto: int) {
    if 0 < upto && upto <= fields.len() {
        assert(decreases_to!(fields => fields[upto - 1]));
        assert(decreases_to!(fields[upto - 1] => fields[upto - 1].field_type));
        assert(decreases_to!(fields, upto => fields[upto - 1].field_type));
    }
}

pub open spec fn sat_usize(n: nat) -> usize {
    if n > usize::MAX {
        usize::MAX
    } else {
        n as usize
    }
}

/// The saturating sum of the first `upto` data structures' sizes.
pub open spec fn sum_data_sizes(ds: Seq<DataStructure>, upto: int) -> nat
    decreases upto,
{
    if upto <= 0 {
        0
    } else {
        sum_data_sizes(ds, upto - 1) + spec_data_size(ds[upto - 1].data_type)
    }
}

/// Byte size of one data type, saturated to the machine word.
#[verifier::loop_isolation(false)]
pub fn data_size(dt: &DataType) -> (r: usize)
    ensures
        r == sat_usize(spec_data_size(*dt)),
    decreases *dt,
{
    match dt {
        DataType::Integer { bits, .. } => (bits / 8) as usize,
        DataType::Float { precision } => match precision {
            FloatPrecision::Single => 4,
            FloatPrecision::Double => 8,
        },
        DataType::String { .. } => 24,
        DataType::Boolean => 1,
        DataType::Array { element_type, length } => {
            let es = data_size(element_type);
            let ghost spec_el = spec_data_size(**element_type);
            match length {
                Some(l) => {
                    if *l == 0 {
                        proof {
                            assert(spec_el * 0 == 0) by (nonlinear_arith);
                        }
                        0
                    } else if es > usize::MAX / *l {
                        proof {
                            assert(spec_el * (*l as nat) > usize::MAX) by (nonlinear_arith)
                                requires
                                    *l >= 1,
                                    spec_el >= es,
                                    es as nat > usize::MAX as nat / (*l as nat),
                            ;
                        }
                        usize::MAX
                    } else {
                        proof {
                            assert(es * (*l as nat) <= usize::MAX) by (nonlinear_arith)
                                requires
                                    *l >= 1,
                                    es as nat <= usize::MAX as nat / (*l as nat),
                            ;
                            if spec_el > usize::MAX {
                                assert(*l == 1) by (nonlinear_arith)
                                    requires
                                        *l >= 1,
                                        es == usize::MAX,
                                        es as nat <= usize::MAX as nat / (*l as nat),
                                ;
                                assert(spec_el * 1 == spec_el) by (nonlinear_arith);
                            } else {
                                assert(es == spec_el);
                                assert((es as nat) * (*l as nat) == spec_el * (*l as nat));
                            }
                        }
                        proof {
                            assert(*dt == (DataType::Array {
                                element_type: *element_type,
                                length: *length,
                            }));
                            assert(spec_data_size(*dt) == spec_el * (*l as nat));
                            if spec_el > usize::MAX {
                                assert(sat_usize(spec_el * (*l as nat)) == usize::MAX);
                                assert(es * (*l) == usize::MAX) by (nonlinear_arith)
                                    requires
                                        es == usize::MAX,
                                        *l == 1,
                                ;
                            } else {
                                assert(es as nat == spec_el);
                                assert(spec_el * (*l as nat) <= usize::MAX);
                                assert(sat_usize(spec_el * (*l as nat)) == spec_el * (*l as nat));
                            }
                        }
                        es * l
                    }
                },
                None => 16,
            }
        },
        DataType::Struct { fields } => {
            let mut total: usize = 0;
            let mut i: usize = 0;
            while i < fields.len()
                invariant
                    i <= fields@.len(),
                    total == sat_usize(sum_field_data_sizes(fields@, i as int)),
                decreases fields@.len() - i,
            {
                let f = &fields[i];
                proof {
                    assert(decreases_to!(*dt => *fields));
                    assert(decreases_to!(*fields => fields@));
                    assert(decreases_to!(fields@ => fields@[i as int]));
                    assert(decreases_to!(fields@[i as int] => fields@[i as int].field_type));
                    assert(*f == fields@[i as int]);
                    assert(decreases_to!(*dt => f.field_type));
                }
                let fs = data_size(&f.field_type);
                if total > usize::MAX - fs {
                    total = usize::MAX;
                } else {
                    total = total + fs;
                }
                i += 1;
            }
            total
        },
        _ => 8,
    }
}

/// The number of loop operations among the first `upto`.
pub open spec fn count_loops(ops: Seq<Operation>, upto: int) -> int
    decreases upto,
{
    if upto <= 0 {
        0
    } else {
        count_loops(ops, upto - 1) + if ops[upto - 1].operation_type matches OperationType::Loop { .. } {
            1int
        } else {
            0int
        }
    }
}

/// The number of arithmetic operations among the first `upto`.
pub open spec fn count_arith(ops: Seq<Operation>, upto: int) -> int
    decreases upto,
{
    if upto <= 0 {
        0
    } else {
        count_arith(ops, upto - 1) + if ops[upto - 1].operation_type matches OperationType::Arithmetic { .. } {
            1int
        } else {
            0int
        }
    }
}

pub proof fn lemma_count_loops_bounds(ops: Seq<Operation>, upto: int)
    requires
        upto >= 0,
    ensures
        0 <= count_loops(ops, upto) <= upto,
        0 <= count_arith(ops, upto) <= upto,
    decreases upto,
{
    if upto > 0 {
        lemma_count_loops_bounds(ops, upto - 1);
    }
}

/// Complexity in thousandths: 100 per operation plus 300 per loop, clamped
/// to 1000.
pub open spec fn spec_complexity(ops: Seq<Operation>) -> u32 {
    let raw = ops.len() * 100 + count_loops(ops, ops.len() as int) * 300;
    if raw > 1000 {
        1000
    } else {
        raw as u32
    }
}

pub open spec fn number_pattern() -> Seq<char> {
    "(?i)(number|integer|value|variable)\\s+(\\w+)"@
}

pub open spec fn array_pattern() -> Seq<char> {
    "(?i)(array|list)\\s+of\\s+(\\w+)"@
}

/// A data structure as the number pattern yields it.
pub open spec fn is_number_ds(d: DataStructure, name: Seq<char>) -> bool {
    &&& d.name@ == name
    &&& d.data_type == (DataType::Integer { bits: 32, signed: true })
    &&& d.size is None
    &&& d.initial_value is None
    &&& d.scope is Global
}

/// A data structure as the array pattern yields it.
pub open spec fn is_array_ds(d: DataStructure, name: Seq<char>) -> bool {
    &&& d.name@ == name + "_array"@
    &&& d.data_type matches DataType::Array { element_type, length }
        && *element_type == (DataType::Integer { bits: 32, signed: true }) && length is None
    &&& d.size is None
    &&& d.initial_value is None
    &&& d.scope is Global
}

/// The data structures the pattern pass yields: one integer per number
/// capture, then one array per array capture.
pub open spec fn pattern_ds_ok(input: Seq<char>, ds: Seq<DataStructure>) -> bool {
    let caps1 = regex_second_captures(number_pattern(), input);
    let caps2 = regex_second_captures(array_pattern(), input);
    &&& ds.len() == caps1.len() + caps2.len()
    &&& forall|k: int| 0 <= k < caps1.len() ==> is_number_ds(#[trigger] ds[k], caps1[k])
    &&& forall|k: int| 0 <= k < caps2.len() ==> is_array_ds(#[trigger] ds[caps1.len() + k], caps2[k])
}

pub open spec fn pronoun_pattern() -> Seq<char> {
    "(?i)\\b(it|this|that|them|they)\\b"@
}

pub open spec fn has_pronoun_trigger(input: Seq<char>) -> bool {
    regex_match(pronoun_pattern(), input)
}

pub open spec fn has_operation_trigger(input: Seq<char>) -> bool {
    regex_match("(?i)calculate"@, input) && !regex_match("(?i)add"@, input)
        && !regex_match("(?i)multiply"@, input)
}

pub open spec fn is_pronoun_ambiguity(a: Ambiguity, input: Seq<char>) -> bool {
    &&& a.id@ == "pronoun_ambiguity"@
    &&& a.description@ == "Ambiguous pronoun reference detected"@
    &&& a.possible_interpretations.deep_view() == seq![
        "Refers to previously mentioned variable"@,
        "Refers to result of previous operation"@,
    ]
    &&& a.context@ == input
    &&& a.confidence_scores@ == seq![600u32, 400u32]
}

pub open spec fn is_operation_ambiguity(a: Ambiguity, input: Seq<char>) -> bool {
    &&& a.id@ == "operation_ambiguity"@
    &&& a.description@ == "Ambiguous calculation operation"@
    &&& a.possible_interpretations.deep_view() == seq![
        "Addition operation"@,
        "Multiplication operation"@,
        "Complex mathematical formula"@,
    ]
    &&& a.context@ == input
    &&& a.confidence_scores@ == seq![400u32, 300u32, 300u32]
}

/// The ambiguities detection yields: one pronoun ambiguity when a bare
/// pronoun occurs, then one operation ambiguity when "calculate" occurs
/// without "add" or "multiply".
pub open spec fn ambiguities_ok(input: Seq<char>, ams: Seq<Ambiguity>) -> bool {
    let p = has_pronoun_trigger(input);
    let o = has_operation_trigger(input);
    &&& ams.len() == (if p { 1int } else { 0int }) + (if o { 1int } else { 0int })
    &&& p ==> is_pronoun_ambiguity(ams[0], input)
    &&& o ==> is_operation_ambiguity(ams[if p { 1int } else { 0int }], input)
}

pub open spec fn is_block_node(n: ControlFlowNode, id: int, op_id: usize) -> bool {
    &&& n.id == id
    &&& n.node_type == ControlFlowNodeType::BasicBlock
    &&& n.operations@ == seq![op_id]
}

pub open spec fn is_chain_edge(e: ControlFlowEdge, k: int) -> bool {
    &&& e.from == k
    &&& e.to == k + 1
    &&& e.condition is None
    &&& e.edge_type == EdgeType::Unconditional
}

/// The synthesized control-flow graph: entry, one basic block per
/// operation in order, exit, chained by unconditional edges.
pub open spec fn straight_line_cfg(g: ControlFlowGraph, ops: Seq<Operation>) -> bool {
    let n = ops.len() as int;
    &&& g.nodes@.len() == n + 2
    &&& g.nodes@[0].id == 0
    &&& g.nodes@[0].node_type == ControlFlowNodeType::Entry
    &&& g.nodes@[0].operations@.len() == 0
    &&& forall|k: int| 0 <= k < n ==> is_block_node(#[trigger] g.nodes@[k + 1], k + 1, ops[k].id)
    &&& g.nodes@[n + 1].id == n + 1
    &&& g.nodes@[n + 1].node_type == ControlFlowNodeType::Exit
    &&& g.nodes@[n + 1].operations@.len() == 0
    &&& g.edges@.len() == n + 1
    &&& forall|k: int| 0 <= k < n + 1 ==> is_chain_edge(#[trigger] g.edges@[k], k)
    &&& g.entry_point == 0
    &&& g.exit_points@ == seq![(n + 1) as usize]
}

pub open spec fn is_null_constraint(c: Constraint) -> bool {
    &&& c.constraint_type == ConstraintType::NullPointer
    &&& c.severity == ConstraintSeverity::Warning
    &&& c.description@ == "Potential null pointer dereference detected"@
}

pub open spec fn is_bounds_constraint(c: Constraint) -> bool {
    &&& c.constraint_type == ConstraintType::MemoryBounds
    &&& c.severity == ConstraintSeverity::Error
    &&& c.description@ == "Array bounds checking required"@
}

pub open spec fn is_perf_constraint(c: Constraint) -> bool {
    &&& c.constraint_type == ConstraintType::Performance
    &&& c.severity == ConstraintSeverity::Info
    &&& c.description@ == "Loop optimization opportunity"@
}

pub open spec fn constraint_base(input: Seq<char>) -> int {
    (if regex_match("(?i)(pointer|reference)"@, input) { 1int } else { 0int })
        + (if regex_match("(?i)(array|index)"@, input) { 1int } else { 0int })
}

/// The leading text-derived constraints: a null-pointer warning, then an
/// array-bounds error, as the text triggers them.
pub open spec fn constraint_prefix_ok(input: Seq<char>, cs: Seq<Constraint>, base: int) -> bool {
    let p = regex_match("(?i)(pointer|reference)"@, input);
    let b = regex_match("(?i)(array|index)"@, input);
    &&& base == constraint_base(input)
    &&& base <= cs.len()
    &&& p ==> is_null_constraint(cs[0])
    &&& b ==> is_bounds_constraint(cs[if p { 1int } else { 0int }])
}

/// The constraints extraction yields: the text-derived prefix, then one
/// performance note per loop operation.
pub open spec fn constraints_ok(input: Seq<char>, ops: Seq<Operation>, cs: Seq<Constraint>) -> bool {
    let base = constraint_base(input);
    &&& cs.len() == base + count_loops(ops, ops.len() as int)
    &&& constraint_prefix_ok(input, cs, base)
    &&& forall|k: int| base <= k < cs.len() ==> is_perf_constraint(#[trigger] cs[k])
}

/// The detected system dependencies, in fixed order.
pub open spec fn dependencies_ok(input: Seq<char>, deps: Seq<String>) -> bool {
    let f = regex_match("(?i)(file|read)"@, input);
    let n = regex_match("(?i)(network|http)"@, input);
    let t = regex_match("(?i)(time|date)"@, input);
    let fc = if f { 1int } else { 0int };
    let nc = if n { 1int } else { 0int };
    let tc = if t { 1int } else { 0int };
    &&& deps.len() == fc + nc + tc
    &&& f ==> deps[0]@ == "filesystem"@
    &&& n ==> deps[fc]@ == "network"@
    &&& t ==> deps[fc + nc]@ == "time"@
}

/// The generated optimization hints, in fixed order.
pub open spec fn hints_ok(ops: Seq<Operation>, hints: Seq<String>) -> bool {
    let l = count_loops(ops, ops.len() as int) > 0;
    let a = count_arith(ops, ops.len() as int) > 3;
    &&& hints.len() == (if l { 1int } else { 0int }) + (if a { 1int } else { 0int })
    &&& l ==> hints[0]@ == "Consider loop unrolling for performance"@
    &&& a ==> hints[if l { 1int } else { 0int }]@ == "Vectorization opportunity detected"@
}

/// The merged operation list: the pattern pass's operations first, then
/// whatever the oracle contributed, with ids equal to positions and
/// confidences in the unit interval.
pub open spec fn extracted_ops_ok(input: Seq<char>, ops: Seq<Operation>) -> bool {
    let c = matched_count(input, 5);
    &&& c <= ops.len()
    &&& pattern_ops_ok(input, ops.subrange(0, c), 5)
    &&& forall|i: int| 0 <= i < ops.len() ==> (#[trigger] ops[i]).id == i
    &&& forall|i: int| 0 <= i < ops.len() ==> (#[trigger] ops[i]).confidence <= 1000
}

/// In a pattern-pass result, each operation's id is its position and its
/// confidence is the fixed 0.8.
pub proof fn lemma_pattern_ops_positions(input: Seq<char>, ops: Seq<Operation>)
    requires
        pattern_ops_ok(input, ops, 5),
    ensures
        forall|k: int| 0 <= k < ops.len() ==> (#[trigger] ops[k]).id == k,
        forall|k: int| 0 <= k < ops.len() ==> (#[trigger] ops[k]).confidence == 800,
{
    assert forall|k: int| 0 <= k < ops.len()
        implies (#[trigger] ops[k]).id == k && ops[k].confidence == 800 by {
        lemma_matched_index_exists(input, 5, k);
        let j = choose|j: int| 0 <= j < 5 && regex_match(matcher_pattern(j), input)
            && matched_count(input, j) == k;
        assert(is_pattern_op(ops[k], input, j));
    }
}

impl IntentExtractor {
    /// Decode the oracle's JSON-encoded operations and append them; a reply
    /// with no operations array contributes nothing. Items without a known
    /// operation type are dropped; a missing confidence defaults to 0.5.
    pub fn decode_oracle_operations(&self, reply: &str, operations: &mut Vec<Operation>)
        ensures
            final(operations)@.len() >= old(operations)@.len(),
            final(operations)@.subrange(0, old(operations)@.len() as int) == old(operations)@,
            forall|k: int| old(operations)@.len() <= k < final(operations)@.len()
                ==> (#[trigger] final(operations)@[k]).id == k
                    && final(operations)@[k].confidence <= 1000,
            old(operations)@.len() <= usize::MAX - 2 ==> final(operations)@.len() <= usize::MAX - 2,
            crate::json::json_array_elems(reply@, "operations"@) is None
                ==> final(operations)@ == old(operations)@,
    {
        proof {
            assert(operations@.subrange(0, operations@.len() as int) =~= operations@);
        }
        let items = match get_array_elems(reply, "operations") {
            None => {
                return;
            },
            Some(v) => v,
        };
        let ghost orig = operations@;
        let mut i: usize = 0;
        while i < items.len()
            invariant
                i <= items@.len(),
                operations@.len() >= orig.len(),
                operations@.subrange(0, orig.len() as int) == orig,
                forall|k: int| orig.len() <= k < operations@.len()
                    ==> (#[trigger] operations@[k]).id == k
                        && operations@[k].confidence <= 1000,
                orig.len() <= usize::MAX - 2 ==> operations@.len() <= usize::MAX - 2,
            decreases items@.len() - i,
        {
            let ghost before = operations@;
            if operations.len() < usize::MAX - 2 {
                let item = &items[i];
                let op_type = match get_string_field(item.as_str(), "operation_type") {
                    None => None,
                    Some(name) => Self::map_operation_name(&name),
                };
                if let Some(t) = op_type {
                    let description = match get_string_field(item.as_str(), "description") {
                        None => String::new(),
                        Some(d) => d,
                    };
                    let inputs = match get_string_elems(item.as_str(), "inputs") {
                        None => Vec::new(),
                        Some(v) => v,
                    };
                    let outputs = match get_string_elems(item.as_str(), "outputs") {
                        None => Vec::new(),
                        Some(v) => v,
                    };
                    let confidence = match get_field_text(item.as_str(), "confidence") {
                        None => 500,
                        Some(txt) => match millis_of_number(txt.as_str()) {
                            None => 500,
                            Some(m) => m,
                        },
                    };
                    operations.push(Operation {
                        id: operations.len(),
                        operation_type: t,
                        inputs,
                        outputs,
                        description,
                        confidence,
                    });
                    proof {
                        assert(operations@.subrange(0, orig.len() as int)
                            =~= before.subrange(0, orig.len() as int));
                    }
                }
            }
            i += 1;
        }
    }

    /// The operation type named by an oracle reply, when the name is known.
    fn map_operation_name(name: &String) -> (r: Option<OperationType>)
    {
        if name == &String::from_str("arithmetic") {
            Some(OperationType::Arithmetic { operator: ArithmeticOp::Add })
        } else if name == &String::from_str("comparison") {
            Some(OperationType::Comparison { operator: ComparisonOp::Equal })
        } else if name == &String::from_str("input") {
            Some(OperationType::Input { prompt: None })
        } else if name == &String::from_str("output") {
            Some(OperationType::Output { format: None })
        } else if name == &String::from_str("loop") {
            Some(OperationType::Loop { condition: String::from_str("unknown"), body: Vec::new() })
        } else if name == &String::from_str("assignment") {
            Some(OperationType::Assignment { target: String::from_str("unknown") })
        } else {
            None
        }
    }

    /// The data type named by an oracle reply; unknown names are Unknown.
    fn map_type_name(name: &String) -> (r: DataType)
    {
        if name == &String::from_str("integer") {
            DataType::Integer { bits: 32, signed: true }
        } else if name == &String::from_str("float") {
            DataType::Float { precision: FloatPrecision::Double }
        } else if name == &String::from_str("boolean") {
            DataType::Boolean
        } else if name == &String::from_str("string") {
            DataType::String { max_length: None }
        } else {
            DataType::Unknown
        }
    }

    /// Decode the oracle's JSON-encoded data structures and append them;
    /// items without a name are dropped.
    pub fn decode_oracle_data_structures(&self, reply: &str, data_structures: &mut Vec<DataStructure>)
        ensures
            final(data_structures)@.len() >= old(data_structures)@.len(),
            final(data_structures)@.subrange(0, old(data_structures)@.len() as int)
                == old(data_structures)@,
            crate::json::json_array_elems(reply@, "data_structures"@) is None
                ==> final(data_structures)@ == old(data_structures)@,
    {
        proof {
            assert(data_structures@.subrange(0, data_structures@.len() as int) =~= data_structures@);
        }
        let items = match get_array_elems(reply, "data_structures") {
            None => {
                return;
            },
            Some(v) => v,
        };
        let ghost orig = data_structures@;
        let mut i: usize = 0;
        while i < items.len()
            invariant
                i <= items@.len(),
                data_structures@.len() >= orig.len(),
                data_structures@.subrange(0, orig.len() as int) == orig,
            decreases items@.len() - i,
        {
            let ghost before = data_structures@;
            let item = &items[i];
            if let Some(name) = get_string_field(item.as_str(), "name") {
                let data_type = match get_string_field(item.as_str(), "data_type") {
                    None => DataType::Unknown,
                    Some(t) => Self::map_type_name(&t),
                };
                let scope = match get_string_field(item.as_str(), "scope") {
                    None => Scope::Global,
                    Some(s) => {
                        if &s == &String::from_str("function") {
                            Scope::Function { name: String::new() }
                        } else if &s == &String::from_str("block") {
                            Scope::Block { id: String::new() }
                        } else {
                            Scope::Global
                        }
                    },
                };
                data_structures.push(DataStructure {
                    name,
                    data_type,
                    size: None,
                    initial_value: None,
                    scope,
                });
                proof {
                    assert(data_structures@.subrange(0, orig.len() as int)
                        =~= before.subrange(0, orig.len() as int));
                }
            }
            i += 1;
        }
    }

    /// The prompt for the one oracle call of the extraction pass.
    pub fn intent_prompt(&self, input: &str) -> (r: String)
        ensures
            r@ == intent_prompt_prefix() + input@ + intent_prompt_suffix(),
    {
        let mut p = String::from_str(
            "Analyze the following natural language program description and extract the computational intent in JSON format.\n\nNATURAL LANGUAGE PROGRAM:\n",
        );
        p.append(input);
        p.append(
            "\n\nReturn a JSON object with an operations array (id, operation_type, inputs, outputs, description, confidence) and a data_structures array (name, data_type, scope). Return ONLY the JSON object, no additional text.",
        );
        p
    }

    /// Extract program intent from natural language and one oracle reply:
    /// pattern-matched operations and data structures come first, the
    /// decoded oracle contributions follow, and the control-flow graph,
    /// constraints, ambiguities, and metadata are derived from the whole.
    pub fn extract_intent(&self, input: &str, oracle_reply: &str) -> (r: ProgramIntent)
        requires
            self.wf(),
        ensures
            r.wf(),
            extracted_ops_ok(input@, r.operations@),
            pattern_ds_ok(input@, r.data_structures@.subrange(
                0,
                regex_second_captures(number_pattern(), input@).len()
                    + regex_second_captures(array_pattern(), input@).len() as int,
            )),
            ambiguities_ok(input@, r.ambiguities@),
            straight_line_cfg(r.control_flow, r.operations@),
            constraints_ok(input@, r.operations@, r.constraints@),
            metadata_ok(input@, r.operations@, r.data_structures@, r.metadata),
    {
        let mut operations = self.extract_operations_with_patterns(input);
        let ghost pattern_ops = operations@;
        proof {
            lemma_pattern_ops_positions(input@, pattern_ops);
            lemma_matched_count_bounds(input@, 5);
        }
        self.decode_oracle_operations(oracle_reply, &mut operations);
        proof {
            assert(pattern_ops.subrange(0, matched_count(input@, 5))
                =~= operations@.subrange(0, matched_count(input@, 5)));
            assert(extracted_ops_ok(input@, operations@)) by {
                assert forall|i: int| 0 <= i < operations@.len()
                    implies (#[trigger] operations@[i]).id == i
                        && operations@[i].confidence <= 1000 by {
                    if i < pattern_ops.len() {
                        assert(operations@[i] == pattern_ops[i]) by {
                            assert(operations@.subrange(0, pattern_ops.len() as int)[i]
                                == operations@[i]);
                        }
                    }
                }
            }
        }
        let mut data_structures = self.extract_data_structures_with_patterns(input);
        let ghost pattern_ds = data_structures@;
        self.decode_oracle_data_structures(oracle_reply, &mut data_structures);
        proof {
            assert(pattern_ds.subrange(0, pattern_ds.len() as int) =~= pattern_ds);
            assert(data_structures@.subrange(0, pattern_ds.len() as int) =~= pattern_ds);
        }
        let control_flow = self.build_control_flow_graph(&operations);
        let constraints = self.extract_constraints(input, &operations);
        let ambiguities = self.detect_ambiguities(input);
        let metadata = self.generate_metadata(input, &operations, &data_structures);
        ProgramIntent {
            operations,
            data_structures,
            control_flow,
            constraints,
            ambiguities,
            metadata,
        }
    }
}

pub open spec fn intent_prompt_prefix() -> Seq<char> {
    "Analyze the following natural language program description and extract the computational intent in JSON format.\n\nNATURAL LANGUAGE PROGRAM:\n"@
}

pub open spec fn intent_prompt_suffix() -> Seq<char> {
    "\n\nReturn a JSON object with an operations array (id, operation_type, inputs, outputs, description, confidence) and a data_structures array (name, data_type, scope). Return ONLY the JSON object, no additional text."@
}

/// The assembled metadata.
pub open spec fn metadata_ok(
    input: Seq<char>,
    ops: Seq<Operation>,
    ds: Seq<DataStructure>,
    md: IntentMetadata,
) -> bool {
    &&& md.complexity_score == spec_complexity(ops)
    &&& md.estimated_runtime matches Some(s) && s@ == "O(n)"@
    &&& md.memory_requirements == Some(sat_usize(sum_data_sizes(ds, ds.len() as int)))
    &&& dependencies_ok(input, md.system_dependencies@)
    &&& hints_ok(ops, md.optimization_hints@)
}

} // verus!
