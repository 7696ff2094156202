//! Semantic analysis: builds the symbol table and the variable, function,
//! and type maps, validates references, derives safety constraints, and
//! computes a first-pass memory layout. Analysis is total: problems are
//! recorded as semantic errors, never raised.

use vstd::prelude::*;
use vstd::string::StringExecFns;
use crate::intent_extractor::{ProgramIntent, Operation, OperationType, DataStructure, DataType,
    FieldDecl, FloatPrecision};

verus! {

#[derive(Debug, Clone, Copy, PartialEq, Eq, Structural)]
pub enum SideEffect {
    ModifiesGlobalState,
    PerformsIO,
    AllocatesMemory,
    CallsSystemFunction,
}

#[derive(Debug, Clone, Copy, PartialEq, Eq, Structural)]
pub enum SymbolType {
    Variable,
    Function,
    Type,
    Constant,
}

#[derive(Debug, Clone, Copy, PartialEq, Eq, Structural)]
pub enum ScopeType {
    Global,
    Function,
    Block,
    Loop,
}

#[derive(Debug, Clone, Copy, PartialEq, Eq, Structural)]
pub enum SafetyConstraintType {
    NullPointerCheck,
    BoundsCheck,
    OverflowCheck,
    UninitializedAccess,
    UseAfterFree,
    DataRace,
    DeadlockPrevention,
}

#[derive(Debug, Clone, Copy, PartialEq, Eq, Structural)]
pub enum ConstraintSeverity {
    Critical,
    High,
    Medium,
    Low,
}

#[derive(Debug, Clone, Copy, PartialEq, Eq, Structural)]
pub enum SemanticErrorType {
    UndefinedVariable,
    TypeMismatch,
    InvalidOperation,
    ScopeViolation,
    MemoryLeak,
    UnreachableCode,
    InfiniteLoop,
}

#[derive(Debug, Clone)]
pub struct SourceLocation {
    pub line: usize,
    pub column: usize,
    pub context: String,
}

/// One variable of the program under analysis.
#[derive(Debug)]
pub struct VariableInfo {
    pub name: String,
    pub data_type: DataType,
    pub scope: crate::intent_extractor::Scope,
    pub is_mutable: bool,
    pub initialization_required: bool,
    pub usage_count: usize,
    pub first_use_line: Option<usize>,
    pub last_use_line: Option<usize>,
}

#[derive(Debug, Clone)]
pub struct Parameter {
    pub name: String,
    pub param_type: String,
    pub is_optional: bool,
    pub default_value: Option<String>,
}

#[derive(Debug, Clone)]
pub struct FunctionComplexity {
    pub cyclomatic_complexity: usize,
    pub estimated_instructions: usize,
    pub memory_usage: usize,
}

#[derive(Debug, Clone)]
pub struct FunctionInfo {
    pub name: String,
    pub parameters: Vec<Parameter>,
    pub return_type: String,
    pub is_pure: bool,
    pub side_effects: Vec<SideEffect>,
    pub complexity: FunctionComplexity,
}

#[derive(Debug, Clone)]
pub struct TypeInfo {
    pub name: String,
    pub size_bytes: usize,
    pub alignment: usize,
    pub is_primitive: bool,
    pub methods: Vec<String>,
}

#[derive(Debug, Clone)]
pub struct AlignmentRequirement {
    pub variable_name: String,
    pub required_alignment: usize,
    pub reason: String,
}

#[derive(Debug, Clone)]
pub struct MemoryLayout {
    pub total_size: usize,
    pub stack_size: usize,
    pub heap_size: usize,
    pub static_size: usize,
    pub alignment_requirements: Vec<AlignmentRequirement>,
}

#[derive(Debug, Clone)]
pub struct SafetyConstraint {
    pub constraint_type: SafetyConstraintType,
    pub description: String,
    pub affected_variables: Vec<String>,
    pub severity: ConstraintSeverity,
}

#[derive(Debug, Clone)]
pub struct Symbol {
    pub name: String,
    pub symbol_type: SymbolType,
    pub data_type: String,
    pub is_defined: bool,
    pub is_used: bool,
    pub definition_location: Option<SourceLocation>,
    pub usage_locations: Vec<SourceLocation>,
}

#[derive(Debug, Clone)]
pub struct Scope {
    pub id: usize,
    pub parent: Option<usize>,
    pub symbols: Vec<Symbol>,
    pub scope_type: ScopeType,
}

#[derive(Debug, Clone)]
pub struct SymbolTable {
    pub scopes: Vec<Scope>,
    pub current_scope: usize,
    pub global_symbols: Vec<Symbol>,
}

#[derive(Debug, Clone)]
pub struct SemanticError {
    pub error_type: SemanticErrorType,
    pub message: String,
    pub location: Option<SourceLocation>,
    pub suggestions: Vec<String>,
}

/// The semantic model of the analyzed program.
#[derive(Debug)]
pub struct SemanticModel {
    pub variables: Vec<VariableInfo>,
    pub functions: Vec<FunctionInfo>,
    pub types: Vec<TypeInfo>,
    pub memory_layout: MemoryLayout,
    pub safety_constraints: Vec<SafetyConstraint>,
    pub symbol_table: SymbolTable,
    pub semantic_errors: Vec<SemanticError>,
}

/// Structural agreement of two data types, over the views of their text
/// fields.
pub open spec fn dt_like(a: DataType, b: DataType) -> bool
    decreases a,
{
    match (a, b) {
        (DataType::Integer { bits: ab, signed: asg }, DataType::Integer { bits: bb, signed: bsg }) =>
            ab == bb && asg == bsg,
        (DataType::Float { precision: ap }, DataType::Float { precision: bp }) => ap == bp,
        (DataType::String { max_length: am }, DataType::String { max_length: bm }) => am == bm,
        (DataType::Boolean, DataType::Boolean) => true,
        (
            DataType::Array { element_type: ae, length: al },
            DataType::Array { element_type: be, length: bl },
        ) => al == bl && dt_like(*ae, *be),
        (DataType::Struct { fields: af }, DataType::Struct { fields: bf }) => {
            &&& af@.len() == bf@.len()
            &&& forall|i: int| 0 <= i < af@.len() ==> (#[trigger] af@[i]).name@ == bf@[i].name@
                && dt_like(af@[i].field_type, bf@[i].field_type)
        },
        (DataType::Pointer { target_type: at }, DataType::Pointer { target_type: bt }) =>
            dt_like(*at, *bt),
        (DataType::Unknown, DataType::Unknown) => true,
        _ => false,
    }
}

/// Copy a data type, keeping its structure and the views of its text
/// fields.
#[verifier::loop_isolation(false)]
pub fn copy_data_type(t: &DataType) -> (r: DataType)
    ensures
        dt_like(r, *t),
    decreases *t,
{
    match t {
        DataType::Integer { bits, signed } => DataType::Integer { bits: *bits, signed: *signed },
        DataType::Float { precision } => DataType::Float { precision: *precision },
        DataType::String { max_length } => DataType::String { max_length: *max_length },
        DataType::Boolean => DataType::Boolean,
        DataType::Array { element_type, length } => DataType::Array {
            element_type: Box::new(copy_data_type(element_type)),
            length: *length,
        },
        DataType::Struct { fields } => {
            let mut out: Vec<FieldDecl> = Vec::new();
            let mut i: usize = 0;
            while i < fields.len()
                invariant
                    i <= fields@.len(),
                    out@.len() == i,
                    forall|k: int| 0 <= k < i ==> (#[trigger] out@[k]).name@ == fields@[k].name@
                        && dt_like(out@[k].field_type, fields@[k].field_type),
                decreases fields@.len() - i,
            {
                let f = &fields[i];
                proof {
                    assert(decreases_to!(*t => *fields));
                    assert(decreases_to!(*fields => fields@));
                    assert(decreases_to!(fields@ => fields@[i as int]));
                    assert(decreases_to!(fields@[i as int] => fields@[i as int].field_type));
                    assert(*f == fields@[i as int]);
                    assert(decreases_to!(*t => f.field_type));
                }
                out.push(FieldDecl {
                    name: f.name.clone(),
                    field_type: copy_data_type(&f.field_type),
                });
                i += 1;
            }
            DataType::Struct { fields: out }
        },
        DataType::Pointer { target_type } => DataType::Pointer {
            target_type: Box::new(copy_data_type(target_type)),
        },
        DataType::Unknown => DataType::Unknown,
    }
}

/// Copy a scope, keeping the views of its text fields.
pub fn copy_scope(s: &crate::intent_extractor::Scope) -> (r: crate::intent_extractor::Scope)
    ensures
        scope_like(r, *s),
{
    match s {
        crate::intent_extractor::Scope::Global => crate::intent_extractor::Scope::Global,
        crate::intent_extractor::Scope::Function { name } => crate::intent_extractor::Scope::Function {
            name: name.clone(),
        },
        crate::intent_extractor::Scope::Block { id } => crate::intent_extractor::Scope::Block {
            id: id.clone(),
        },
    }
}

pub open spec fn scope_like(a: crate::intent_extractor::Scope, b: crate::intent_extractor::Scope) -> bool {
    match (a, b) {
        (crate::intent_extractor::Scope::Global, crate::intent_extractor::Scope::Global) => true,
        (
            crate::intent_extractor::Scope::Function { name: an },
            crate::intent_extractor::Scope::Function { name: bn },
        ) => an@ == bn@,
        (
            crate::intent_extractor::Scope::Block { id: ai },
            crate::intent_extractor::Scope::Block { id: bi },
        ) => ai@ == bi@,
        _ => false,
    }
}

/// A short canonical name for a data type.
pub open spec fn spec_type_label(dt: DataType) -> Seq<char> {
    match dt {
        DataType::Integer { .. } => "integer"@,
        DataType::Float { .. } => "float"@,
        DataType::String { .. } => "string"@,
        DataType::Boolean => "boolean"@,
        DataType::Array { .. } => "array"@,
        DataType::Struct { .. } => "struct"@,
        DataType::Pointer { .. } => "pointer"@,
        DataType::Unknown => "unknown"@,
    }
}

pub fn type_label(dt: &DataType) -> (r: &'static str)
    ensures
        r@ == spec_type_label(*dt),
{
    match dt {
        DataType::Integer { .. } => "integer",
        DataType::Float { .. } => "float",
        DataType::String { .. } => "string",
        DataType::Boolean => "boolean",
        DataType::Array { .. } => "array",
        DataType::Struct { .. } => "struct",
        DataType::Pointer { .. } => "pointer",
        DataType::Unknown => "unknown",
    }
}

pub open spec fn is_call(op: Operation) -> bool {
    op.operation_type matches OperationType::FunctionCall { .. }
}

/// The number of function-call operations among the first `upto`.
pub open spec fn count_calls(ops: Seq<Operation>, upto: int) -> int
    decreases upto,
{
    if upto <= 0 {
        0
    } else {
        count_calls(ops, upto - 1) + if is_call(ops[upto - 1]) {
            1int
        } else {
            0int
        }
    }
}

pub proof fn lemma_count_calls_mono(ops: Seq<Operation>, a: int, b: int)
    requires
        0 <= a <= b,
    ensures
        count_calls(ops, a) <= count_calls(ops, b) <= count_calls(ops, a) + (b - a),
        count_calls(ops, a) >= 0,
    decreases b,
{
    if a < b {
        lemma_count_calls_mono(ops, a, b - 1);
    } else if a > 0 {
        lemma_count_calls_mono(ops, a - 1, a - 1);
    }
}

/// How often `name` occurs among the first `upto` strings.
pub open spec fn count_name_in(xs: Seq<String>, name: Seq<char>, upto: int) -> nat
    decreases upto,
{
    if upto <= 0 {
        0
    } else {
        count_name_in(xs, name, upto - 1) + if xs[upto - 1]@ == name {
            1nat
        } else {
            0nat
        }
    }
}

/// How often `name` occurs among the inputs of the first `upto` operations.
pub open spec fn count_usages(ops: Seq<Operation>, name: Seq<char>, upto: int) -> nat
    decreases upto,
{
    if upto <= 0 {
        0
    } else {
        count_usages(ops, name, upto - 1)
            + count_name_in(ops[upto - 1].inputs@, name, ops[upto - 1].inputs@.len() as int)
    }
}

pub open spec fn sat_usize_nat(n: nat) -> usize {
    if n > usize::MAX {
        usize::MAX
    } else {
        n as usize
    }
}

/// One variable record, as analysis derives it from a data structure.
pub open spec fn var_info_ok(v: VariableInfo, ds: DataStructure, ops: Seq<Operation>) -> bool {
    &&& v.name@ == ds.name@
    &&& dt_like(v.data_type, ds.data_type)
    &&& scope_like(v.scope, ds.scope)
    &&& v.is_mutable
    &&& v.initialization_required == (ds.initial_value is None)
    &&& v.usage_count == sat_usize_nat(count_usages(ops, ds.name@, ops.len() as int))
}

pub open spec fn is_pointer_var(v: VariableInfo) -> bool {
    v.data_type matches DataType::Pointer { .. }
}

pub open spec fn is_array_var(v: VariableInfo) -> bool {
    v.data_type matches DataType::Array { .. }
}

pub open spec fn count_ptr(vars: Seq<VariableInfo>, upto: int) -> int
    decreases upto,
{
    if upto <= 0 {
        0
    } else {
        count_ptr(vars, upto - 1) + if is_pointer_var(vars[upto - 1]) {
            1int
        } else {
            0int
        }
    }
}

pub open spec fn count_arr(vars: Seq<VariableInfo>, upto: int) -> int
    decreases upto,
{
    if upto <= 0 {
        0
    } else {
        count_arr(vars, upto - 1) + if is_array_var(vars[upto - 1]) {
            1int
        } else {
            0int
        }
    }
}

pub proof fn lemma_count_ptr_mono(vars: Seq<VariableInfo>, a: int, b: int)
    requires
        0 <= a <= b,
    ensures
        0 <= count_ptr(vars, a) <= count_ptr(vars, b) <= count_ptr(vars, a) + (b - a),
        0 <= count_arr(vars, a) <= count_arr(vars, b) <= count_arr(vars, a) + (b - a),
    decreases b,
{
    if a < b {
        lemma_count_ptr_mono(vars, a, b - 1);
    } else if a > 0 {
        lemma_count_ptr_mono(vars, a - 1, a - 1);
    }
}

/// A critical null-pointer check over one named variable.
pub open spec fn is_null_check(c: SafetyConstraint, name: Seq<char>) -> bool {
    &&& c.constraint_type == SafetyConstraintType::NullPointerCheck
    &&& c.severity == ConstraintSeverity::Critical
    &&& c.description@ == "Null pointer check required for "@ + name
    &&& c.affected_variables.deep_view() == seq![name]
}

/// A high-severity bounds check over one named variable.
pub open spec fn is_bounds_check(c: SafetyConstraint, name: Seq<char>) -> bool {
    &&& c.constraint_type == SafetyConstraintType::BoundsCheck
    &&& c.severity == ConstraintSeverity::High
    &&& c.description@ == "Array bounds check required for "@ + name
    &&& c.affected_variables.deep_view() == seq![name]
}

/// A medium-severity overflow check over an arithmetic operation's inputs.
pub open spec fn is_overflow_check(c: SafetyConstraint, op: Operation) -> bool {
    &&& c.constraint_type == SafetyConstraintType::OverflowCheck
    &&& c.severity == ConstraintSeverity::Medium
    &&& c.description@ == "Integer overflow check for arithmetic operation"@
    &&& c.affected_variables.deep_view() == op.inputs.deep_view()
}

/// The derived safety constraints: one critical null check per
/// pointer-typed variable, then one high bounds check per array-typed
/// variable, then one medium overflow check per arithmetic operation.
pub open spec fn safety_ok(vars: Seq<VariableInfo>, ops: Seq<Operation>, cs: Seq<SafetyConstraint>) -> bool {
    let np = count_ptr(vars, vars.len() as int);
    let nb = count_arr(vars, vars.len() as int);
    let na = crate::intent_extractor::count_arith(ops, ops.len() as int);
    &&& cs.len() == np + nb + na
    &&& forall|i: int| 0 <= i < vars.len() && is_pointer_var(#[trigger] vars[i])
        ==> is_null_check(cs[count_ptr(vars, i)], vars[i].name@)
    &&& forall|i: int| 0 <= i < vars.len() && is_array_var(#[trigger] vars[i])
        ==> is_bounds_check(cs[np + count_arr(vars, i)], vars[i].name@)
    &&& forall|i: int| 0 <= i < ops.len()
        && ((#[trigger] ops[i]).operation_type matches OperationType::Arithmetic { .. })
        ==> is_overflow_check(cs[np + nb + crate::intent_extractor::count_arith(ops, i)], ops[i])
}

/// Byte size of a data type in the first-pass layout: integers by width,
/// floats by precision, booleans one byte, anything else a machine word.
pub open spec fn spec_prim_size(dt: DataType) -> nat {
    match dt {
        DataType::Integer { bits, .. } => (bits / 8) as nat,
        DataType::Float { precision } => match precision {
            FloatPrecision::Single => 4,
            FloatPrecision::Double => 8,
        },
        DataType::Boolean => 1,
        _ => 8,
    }
}

pub open spec fn spec_prim_align(dt: DataType) -> nat {
    match dt {
        DataType::Integer { bits, .. } => if bits / 8 > 8 {
            8
        } else if bits / 8 == 0 {
            1
        } else {
            (bits / 8) as nat
        },
        DataType::Float { precision } => match precision {
            FloatPrecision::Single => 4,
            FloatPrecision::Double => 8,
        },
        DataType::Boolean => 1,
        _ => 8,
    }
}

pub open spec fn on_stack(v: VariableInfo) -> bool {
    v.scope matches crate::intent_extractor::Scope::Function { .. }
        || v.scope matches crate::intent_extractor::Scope::Block { .. }
}

/// Sum of the sizes of the first `upto` variables that live on the stack.
pub open spec fn stack_sum(vars: Seq<VariableInfo>, upto: int) -> nat
    decreases upto,
{
    if upto <= 0 {
        0
    } else {
        stack_sum(vars, upto - 1) + if on_stack(vars[upto - 1]) {
            spec_prim_size(vars[upto - 1].data_type)
        } else {
            0
        }
    }
}

/// Sum of the sizes of the first `upto` variables that live in the static
/// segment.
pub open spec fn static_sum(vars: Seq<VariableInfo>, upto: int) -> nat
    decreases upto,
{
    if upto <= 0 {
        0
    } else {
        static_sum(vars, upto - 1) + if on_stack(vars[upto - 1]) {
            0
        } else {
            spec_prim_size(vars[upto - 1].data_type)
        }
    }
}

/// The first-pass memory layout: stack and static byte totals split by
/// scope, no heap, and one alignment requirement per variable whose type
/// needs more than byte alignment.
pub open spec fn layout_ok(vars: Seq<VariableInfo>, ml: MemoryLayout) -> bool {
    &&& ml.stack_size == sat_usize_nat(stack_sum(vars, vars.len() as int))
    &&& ml.static_size == sat_usize_nat(static_sum(vars, vars.len() as int))
    &&& ml.heap_size == 0
    &&& ml.total_size == sat_usize_nat(stack_sum(vars, vars.len() as int) + static_sum(vars, vars.len() as int))
    &&& forall|k: int| 0 <= k < ml.alignment_requirements@.len()
        ==> (#[trigger] ml.alignment_requirements@[k]).required_alignment > 1
}

/// An operation input resolves when a variable or function of that name is
/// known.
pub open spec fn name_resolves(vars: Seq<VariableInfo>, funcs: Seq<FunctionInfo>, name: Seq<char>) -> bool {
    ||| exists|k: int| 0 <= k < vars.len() && (#[trigger] vars[k]).name@ == name
    ||| exists|k: int| 0 <= k < funcs.len() && (#[trigger] funcs[k]).name@ == name
}

pub open spec fn is_undefined_error(e: SemanticError, name: Seq<char>) -> bool {
    &&& e.error_type == SemanticErrorType::UndefinedVariable
    &&& e.message@ == "Undefined variable or function: "@ + name
}

pub open spec fn is_infinite_loop_op(op: Operation) -> bool {
    op.operation_type matches OperationType::Loop { condition, .. }
        && (condition@ == "true"@ || condition@ == "1"@)
}

/// The recorded semantic errors: an undefined-reference error for every
/// unresolvable operation input, an unreachable-code error when the
/// control-flow graph has more nodes than operations plus two, and an
/// infinite-loop error for every loop whose condition is the literal
/// "true" or "1"; and nothing else.
pub open spec fn errors_ok(
    intent: ProgramIntent,
    vars: Seq<VariableInfo>,
    funcs: Seq<FunctionInfo>,
    errs: Seq<SemanticError>,
) -> bool {
    let ops = intent.operations@;
    &&& forall|i: int, j: int| 0 <= i < ops.len() && 0 <= j < ops[i].inputs@.len()
        && !name_resolves(vars, funcs, #[trigger] input_view(ops, i, j))
        ==> {
            let pos = count_undef(ops, vars, funcs, i) + count_undef_in(ops[i].inputs@, vars, funcs, j);
            0 <= pos < errs.len() && is_undefined_error(errs[pos], input_view(ops, i, j))
        }
    &&& forall|k: int| 0 <= k < errs.len()
        ==> ((#[trigger] errs[k]).error_type == SemanticErrorType::UndefinedVariable
            <==> k < count_undef(ops, vars, funcs, ops.len() as int))
    &&& (intent.control_flow.nodes@.len() > ops.len() + 2
        <==> has_error_of(errs, SemanticErrorType::UnreachableCode))
    &&& forall|i: int| 0 <= i < ops.len() && is_infinite_loop_op(#[trigger] ops[i])
        ==> has_error_of(errs, SemanticErrorType::InfiniteLoop)
    &&& has_error_of(errs, SemanticErrorType::InfiniteLoop)
        ==> exists|i: int| 0 <= i < ops.len() && is_infinite_loop_op(ops[i])
    &&& forall|k: int| 0 <= k < errs.len()
        && (#[trigger] errs[k]).error_type == SemanticErrorType::UndefinedVariable
        ==> undef_error_justified(intent, vars, funcs, errs[k])
    &&& forall|k: int| 0 <= k < errs.len()
        ==> (#[trigger] errs[k]).error_type == SemanticErrorType::UndefinedVariable
            || errs[k].error_type == SemanticErrorType::UnreachableCode
            || errs[k].error_type == SemanticErrorType::InfiniteLoop
}

/// One function record per function-call operation.
pub open spec fn func_info_ok(f: FunctionInfo, op: Operation) -> bool {
    &&& op.operation_type matches OperationType::FunctionCall { name, args } && {
        &&& f.name@ == name@
        &&& f.parameters@.len() == args@.len()
        &&& forall|j: int| 0 <= j < args@.len()
            ==> (#[trigger] f.parameters@[j]).name@ == args@[j]@
                && f.parameters@[j].param_type@ == "unknown"@
                && !f.parameters@[j].is_optional
                && f.parameters@[j].default_value is None
        &&& f.return_type@ == "unknown"@
        &&& !f.is_pure
        &&& f.side_effects@ == seq![SideEffect::ModifiesGlobalState]
        &&& f.complexity.cyclomatic_complexity == 1
        &&& f.complexity.estimated_instructions == 10
        &&& f.complexity.memory_usage == 64
    }
}

pub open spec fn functions_ok(ops: Seq<Operation>, funcs: Seq<FunctionInfo>) -> bool {
    &&& funcs.len() == count_calls(ops, ops.len() as int)
    &&& forall|i: int| 0 <= i < ops.len() && is_call(#[trigger] ops[i])
        ==> func_info_ok(funcs[count_calls(ops, i)], ops[i])
}

/// The six primitive entries of the type map.
pub open spec fn primitive_types_ok(ts: Seq<TypeInfo>) -> bool {
    &&& ts.len() >= 6
    &&& ts[0].name@ == "i32"@ && ts[0].size_bytes == 4 && ts[0].alignment == 4 && ts[0].is_primitive
    &&& ts[1].name@ == "i64"@ && ts[1].size_bytes == 8 && ts[1].alignment == 8 && ts[1].is_primitive
    &&& ts[2].name@ == "f32"@ && ts[2].size_bytes == 4 && ts[2].alignment == 4 && ts[2].is_primitive
    &&& ts[3].name@ == "f64"@ && ts[3].size_bytes == 8 && ts[3].alignment == 8 && ts[3].is_primitive
    &&& ts[4].name@ == "bool"@ && ts[4].size_bytes == 1 && ts[4].alignment == 1 && ts[4].is_primitive
    &&& ts[5].name@ == "char"@ && ts[5].size_bytes == 1 && ts[5].alignment == 1 && ts[5].is_primitive
}

/// The view of input `j` of operation `i`.
pub open spec fn input_view(ops: Seq<Operation>, i: int, j: int) -> Seq<char> {
    ops[i].inputs@[j]@
}

/// Number of unresolvable inputs among the first `upto` of one operation.
pub open spec fn count_undef_in(
    inputs: Seq<String>,
    vars: Seq<VariableInfo>,
    funcs: Seq<FunctionInfo>,
    upto: int,
) -> int
    decreases upto,
{
    if upto <= 0 {
        0
    } else {
        count_undef_in(inputs, vars, funcs, upto - 1)
            + if !name_resolves(vars, funcs, inputs[upto - 1]@) {
                1int
            } else {
                0int
            }
    }
}

/// Number of unresolvable inputs across the first `upto` operations.
pub open spec fn count_undef(
    ops: Seq<Operation>,
    vars: Seq<VariableInfo>,
    funcs: Seq<FunctionInfo>,
    upto: int,
) -> int
    decreases upto,
{
    if upto <= 0 {
        0
    } else {
        count_undef(ops, vars, funcs, upto - 1)
            + count_undef_in(ops[upto - 1].inputs@, vars, funcs, ops[upto - 1].inputs@.len() as int)
    }
}

pub proof fn lemma_count_undef_in_bounds(
    inputs: Seq<String>,
    vars: Seq<VariableInfo>,
    funcs: Seq<FunctionInfo>,
    upto: int,
)
    requires
        upto >= 0,
    ensures
        0 <= count_undef_in(inputs, vars, funcs, upto) <= upto,
    decreases upto,
{
    if upto > 0 {
        lemma_count_undef_in_bounds(inputs, vars, funcs, upto - 1);
    }
}

pub proof fn lemma_count_undef_nonneg(
    ops: Seq<Operation>,
    vars: Seq<VariableInfo>,
    funcs: Seq<FunctionInfo>,
    upto: int,
)
    requires
        upto >= 0,
    ensures
        0 <= count_undef(ops, vars, funcs, upto),
    decreases upto,
{
    if upto > 0 {
        lemma_count_undef_nonneg(ops, vars, funcs, upto - 1);
        lemma_count_undef_in_bounds(ops[upto - 1].inputs@, vars, funcs, ops[upto - 1].inputs@.len() as int);
    }
}

pub open spec fn has_undef_error(errs: Seq<SemanticError>, name: Seq<char>) -> bool {
    exists|k: int| 0 <= k < errs.len() && is_undefined_error(#[trigger] errs[k], name)
}

pub open spec fn has_error_of(errs: Seq<SemanticError>, t: SemanticErrorType) -> bool {
    exists|k: int| 0 <= k < errs.len() && (#[trigger] errs[k]).error_type == t
}

/// An undefined-reference error corresponds to some unresolvable input.
pub open spec fn undef_error_justified(
    intent: ProgramIntent,
    vars: Seq<VariableInfo>,
    funcs: Seq<FunctionInfo>,
    e: SemanticError,
) -> bool {
    exists|i: int, j: int| 0 <= i < intent.operations@.len()
        && 0 <= j < intent.operations@[i].inputs@.len()
        && !name_resolves(vars, funcs, #[trigger] input_view(intent.operations@, i, j))
        && e.message@ == "Undefined variable or function: "@ + input_view(intent.operations@, i, j)
}

/// Growing the error list preserves recorded undefined-reference errors.
pub proof fn lemma_undef_preserved(before: Seq<SemanticError>, after: Seq<SemanticError>)
    requires
        after.len() >= before.len(),
        forall|k: int| 0 <= k < before.len() ==> after[k] == before[k],
    ensures
        forall|name: Seq<char>| has_undef_error(before, name) ==> has_undef_error(after, name),
{
    assert forall|name: Seq<char>| has_undef_error(before, name)
        implies has_undef_error(after, name) by {
        let k0 = choose|k: int| 0 <= k < before.len() && is_undefined_error(#[trigger] before[k], name);
        assert(is_undefined_error(after[k0], name));
    }
}

/// Growing the error list preserves recorded error kinds.
pub proof fn lemma_type_preserved(before: Seq<SemanticError>, after: Seq<SemanticError>, t: SemanticErrorType)
    requires
        after.len() >= before.len(),
        forall|k: int| 0 <= k < before.len() ==> after[k] == before[k],
    ensures
        has_error_of(before, t) ==> has_error_of(after, t),
{
    if has_error_of(before, t) {
        let k0 = choose|k: int| 0 <= k < before.len() && (#[trigger] before[k]).error_type == t;
        assert(after[k0].error_type == t);
    }
}

/// Semantic analysis agent.
pub struct SemanticAnalyzer {
    pub analyses_run: usize,
}

impl SemanticAnalyzer {
    pub fn new() -> (r: SemanticAnalyzer)
        ensures
            r.analyses_run == 0,
    {
        SemanticAnalyzer { analyses_run: 0 }
    }

    /// One variable record per data structure, with usage counts taken
    /// from the operations' input lists.
    fn analyze_variables(&self, intent: &ProgramIntent) -> (r: Vec<VariableInfo>)
        ensures
            r@.len() == intent.data_structures@.len(),
            forall|i: int| 0 <= i < r@.len()
                ==> var_info_ok(#[trigger] r@[i], intent.data_structures@[i], intent.operations@),
    {
        let mut out: Vec<VariableInfo> = Vec::new();
        let mut i: usize = 0;
        while i < intent.data_structures.len()
            invariant
                i <= intent.data_structures@.len(),
                out@.len() == i,
                forall|k: int| 0 <= k < i
                    ==> var_info_ok(#[trigger] out@[k], intent.data_structures@[k], intent.operations@),
            decreases intent.data_structures@.len() - i,
        {
            let ds = &intent.data_structures[i];
            let usage = Self::count_variable_usage(&intent.operations, &ds.name);
            out.push(VariableInfo {
                name: ds.name.clone(),
                data_type: copy_data_type(&ds.data_type),
                scope: copy_scope(&ds.scope),
                is_mutable: true,
                initialization_required: match &ds.initial_value {
                    None => true,
                    Some(_) => false,
                },
                usage_count: usage,
                first_use_line: None,
                last_use_line: None,
            });
            i += 1;
        }
        out
    }

    fn count_variable_usage(operations: &Vec<Operation>, name: &String) -> (r: usize)
        ensures
            r == sat_usize_nat(count_usages(operations@, name@, operations@.len() as int)),
    {
        let mut count: usize = 0;
        let mut i: usize = 0;
        while i < operations.len()
            invariant
                i <= operations@.len(),
                count == sat_usize_nat(count_usages(operations@, name@, i as int)),
            decreases operations@.len() - i,
        {
            let inputs = &operations[i].inputs;
            let ghost base = count_usages(operations@, name@, i as int);
            let mut j: usize = 0;
            while j < inputs.len()
                invariant
                    j <= inputs@.len(),
                    inputs@ == operations@[i as int].inputs@,
                    i < operations@.len(),
                    base == count_usages(operations@, name@, i as int),
                    count == sat_usize_nat(base + count_name_in(inputs@, name@, j as int)),
                decreases inputs@.len() - j,
            {
                if inputs[j] == *name {
                    if count < usize::MAX {
                        count += 1;
                    }
                }
                j += 1;
            }
            proof {
                assert(count_usages(operations@, name@, i + 1)
                    == base + count_name_in(inputs@, name@, inputs@.len() as int));
            }
            i += 1;
        }
        count
    }

    /// One function record per function-call operation.
    fn analyze_functions(&self, intent: &ProgramIntent) -> (r: Vec<FunctionInfo>)
        ensures
            functions_ok(intent.operations@, r@),
    {
        let ops = &intent.operations;
        let mut out: Vec<FunctionInfo> = Vec::new();
        let mut i: usize = 0;
        while i < ops.len()
            invariant
                i <= ops@.len(),
                out@.len() == count_calls(ops@, i as int),
                out@.len() <= i,
                forall|k: int| 0 <= k < i && is_call(#[trigger] ops@[k])
                    ==> func_info_ok(out@[count_calls(ops@, k)], ops@[k]),
            decreases ops@.len() - i,
        {
            let ghost old_out = out@;
            let op = &ops[i];
            match &op.operation_type {
                OperationType::FunctionCall { name, args } => {
                    let mut params: Vec<Parameter> = Vec::new();
                    let mut j: usize = 0;
                    while j < args.len()
                        invariant
                            j <= args@.len(),
                            params@.len() == j,
                            forall|k: int| 0 <= k < j
                                ==> (#[trigger] params@[k]).name@ == args@[k]@
                                    && params@[k].param_type@ == "unknown"@
                                    && !params@[k].is_optional
                                    && params@[k].default_value is None,
                        decreases args@.len() - j,
                    {
                        params.push(Parameter {
                            name: args[j].clone(),
                            param_type: String::from_str("unknown"),
                            is_optional: false,
                            default_value: None,
                        });
                        j += 1;
                    }
                    let info = FunctionInfo {
                        name: name.clone(),
                        parameters: params,
                        return_type: String::from_str("unknown"),
                        is_pure: false,
                        side_effects: vec![SideEffect::ModifiesGlobalState],
                        complexity: FunctionComplexity {
                            cyclomatic_complexity: 1,
                            estimated_instructions: 10,
                            memory_usage: 64,
                        },
                    };
                    proof {
                        assert(info.side_effects@ =~= seq![SideEffect::ModifiesGlobalState]);
                        assert(func_info_ok(info, ops@[i as int]));
                    }
                    out.push(info);
                },
                _ => {},
            }
            proof {
                assert forall|k: int| 0 <= k < i + 1 && is_call(#[trigger] ops@[k])
                    implies func_info_ok(out@[count_calls(ops@, k)], ops@[k]) by {
                    lemma_count_calls_mono(ops@, k, i as int);
                    if k < i {
                        assert(count_calls(ops@, k + 1) == count_calls(ops@, k) + 1);
                        lemma_count_calls_mono(ops@, k + 1, i as int);
                        assert(out@[count_calls(ops@, k)] == old_out[count_calls(ops@, k)]);
                    } else {
                        assert(out@[count_calls(ops@, k)] == out@[old_out.len() as int]);
                    }
                }
            }
            i += 1;
        }
        out
    }

    /// The primitive type entries, then one entry per data structure's
    /// type label.
    fn analyze_types(&self, intent: &ProgramIntent) -> (r: Vec<TypeInfo>)
        ensures
            primitive_types_ok(r@),
            r@.len() <= 6 + intent.data_structures@.len(),
    {
        let mut out: Vec<TypeInfo> = Vec::new();
        out.push(TypeInfo { name: String::from_str("i32"), size_bytes: 4, alignment: 4, is_primitive: true, methods: Vec::new() });
        out.push(TypeInfo { name: String::from_str("i64"), size_bytes: 8, alignment: 8, is_primitive: true, methods: Vec::new() });
        out.push(TypeInfo { name: String::from_str("f32"), size_bytes: 4, alignment: 4, is_primitive: true, methods: Vec::new() });
        out.push(TypeInfo { name: String::from_str("f64"), size_bytes: 8, alignment: 8, is_primitive: true, methods: Vec::new() });
        out.push(TypeInfo { name: String::from_str("bool"), size_bytes: 1, alignment: 1, is_primitive: true, methods: Vec::new() });
        out.push(TypeInfo { name: String::from_str("char"), size_bytes: 1, alignment: 1, is_primitive: true, methods: Vec::new() });
        let mut i: usize = 0;
        while i < intent.data_structures.len()
            invariant
                i <= intent.data_structures@.len(),
                primitive_types_ok(out@),
                out@.len() <= 6 + i,
            decreases intent.data_structures@.len() - i,
        {
            let ds = &intent.data_structures[i];
            let label = type_label(&ds.data_type);
            let mut seen = false;
            let mut k: usize = 0;
            while k < out.len()
                invariant
                    k <= out@.len(),
                decreases out@.len() - k,
            {
                if out[k].name.as_str() == label {
                    seen = true;
                }
                k += 1;
            }
            if !seen {
                let size = match ds.size {
                    Some(s) => s,
                    None => 8,
                };
                out.push(TypeInfo {
                    name: String::from_str(label),
                    size_bytes: size,
                    alignment: 8,
                    is_primitive: false,
                    methods: Vec::new(),
                });
            }
            i += 1;
        }
        out
    }
}

impl SemanticAnalyzer {
    /// Validate references, reachability, and loop conditions; problems
    /// are recorded, never raised.
    #[verifier::rlimit(100)]
    #[verifier::spinoff_prover]
    fn validate_semantics(
        &self,
        intent: &ProgramIntent,
        variables: &Vec<VariableInfo>,
        functions: &Vec<FunctionInfo>,
    ) -> (r: Vec<SemanticError>)
        ensures
            errors_ok(*intent, variables@, functions@, r@),
    {
        let ops = &intent.operations;
        let mut errs: Vec<SemanticError> = Vec::new();
        let ghost vars_v = variables@;
        let ghost funcs_v = functions@;
        let mut i: usize = 0;
        while i < ops.len()
            invariant
                i <= ops@.len(),
                ops@ == intent.operations@,
                vars_v == variables@,
                funcs_v == functions@,
                errs@.len() == count_undef(ops@, vars_v, funcs_v, i as int),
                forall|i2: int, j2: int| 0 <= i2 < i && 0 <= j2 < ops@[i2].inputs@.len()
                    && !name_resolves(vars_v, funcs_v, #[trigger] input_view(ops@, i2, j2))
                    ==> {
                        let pos = count_undef(ops@, vars_v, funcs_v, i2)
                            + count_undef_in(ops@[i2].inputs@, vars_v, funcs_v, j2);
                        0 <= pos < errs@.len()
                            && is_undefined_error(errs@[pos], input_view(ops@, i2, j2))
                    },
                forall|k: int| 0 <= k < errs@.len()
                    ==> (#[trigger] errs@[k]).error_type == SemanticErrorType::UndefinedVariable,
                forall|k: int| 0 <= k < errs@.len()
                    ==> undef_error_justified(*intent, vars_v, funcs_v, #[trigger] errs@[k]),
            decreases ops@.len() - i,
        {
            let inputs = &ops[i].inputs;
            let ghost base = count_undef(ops@, vars_v, funcs_v, i as int);
            let mut j: usize = 0;
            while j < inputs.len()
                invariant
                    j <= inputs@.len(),
                    i < ops@.len(),
                    ops@ == intent.operations@,
                    vars_v == variables@,
                    funcs_v == functions@,
                    inputs@ == ops@[i as int].inputs@,
                    base == count_undef(ops@, vars_v, funcs_v, i as int),
                    errs@.len() == base + count_undef_in(inputs@, vars_v, funcs_v, j as int),
                    forall|i2: int, j2: int| 0 <= i2 < i && 0 <= j2 < ops@[i2].inputs@.len()
                        && !name_resolves(vars_v, funcs_v, #[trigger] input_view(ops@, i2, j2))
                        ==> {
                            let pos = count_undef(ops@, vars_v, funcs_v, i2)
                                + count_undef_in(ops@[i2].inputs@, vars_v, funcs_v, j2);
                            0 <= pos < errs@.len()
                                && is_undefined_error(errs@[pos], input_view(ops@, i2, j2))
                        },
                    forall|j2: int| 0 <= j2 < j
                        && !name_resolves(vars_v, funcs_v, #[trigger] input_view(ops@, i as int, j2))
                        ==> {
                            let pos = base + count_undef_in(inputs@, vars_v, funcs_v, j2);
                            0 <= pos < errs@.len()
                                && is_undefined_error(errs@[pos], input_view(ops@, i as int, j2))
                        },
                    forall|k: int| 0 <= k < errs@.len()
                        ==> (#[trigger] errs@[k]).error_type == SemanticErrorType::UndefinedVariable,
                    forall|k: int| 0 <= k < errs@.len()
                        ==> undef_error_justified(*intent, vars_v, funcs_v, #[trigger] errs@[k]),
                decreases inputs@.len() - j,
            {
                proof {
                    lemma_count_undef_in_bounds(inputs@, vars_v, funcs_v, j as int);
                    lemma_count_undef_nonneg(ops@, vars_v, funcs_v, i as int);
                }
                let name = &inputs[j];
                if !Self::resolves(variables, functions, name) {
                    let mut msg = String::from_str("Undefined variable or function: ");
                    msg.append(name.as_str());
                    let mut suggestions: Vec<String> = Vec::new();
                    suggestions.push(String::from_str("Define the name before use"));
                    suggestions.push(String::from_str("Check for typos in variable name"));
                    errs.push(SemanticError {
                        error_type: SemanticErrorType::UndefinedVariable,
                        message: msg,
                        location: Some(SourceLocation {
                            line: 1,
                            column: 1,
                            context: ops[i].description.clone(),
                        }),
                        suggestions,
                    });
                    proof {
                        assert(input_view(ops@, i as int, j as int) == inputs@[j as int]@);
                        assert(is_undefined_error(errs@[errs@.len() - 1], input_view(ops@, i as int, j as int)));
                        assert(!name_resolves(vars_v, funcs_v,
                            input_view(intent.operations@, i as int, j as int)));
                        assert(errs@[errs@.len() - 1].message@
                            == "Undefined variable or function: "@
                                + input_view(intent.operations@, i as int, j as int));
                        assert(undef_error_justified(*intent, vars_v, funcs_v, errs@[errs@.len() - 1]));
                    }
                }
                j += 1;
            }
            proof {
                assert(count_undef(ops@, vars_v, funcs_v, i + 1)
                    == base + count_undef_in(inputs@, vars_v, funcs_v, inputs@.len() as int));
            }
            i += 1;
        }
        proof {
            lemma_count_undef_nonneg(ops@, vars_v, funcs_v, ops@.len() as int);
        }
        let ghost undefined_only = errs@;
        let n_nodes = intent.control_flow.nodes.len();
        let nodes_exceed = ops.len() <= usize::MAX - 2 && n_nodes > ops.len() + 2;
        proof {
            assert(nodes_exceed == (intent.control_flow.nodes@.len() > intent.operations@.len() + 2));
        }
        if nodes_exceed {
            let ghost before = errs@;
            errs.push(SemanticError {
                error_type: SemanticErrorType::UnreachableCode,
                message: String::from_str("Potential unreachable code detected"),
                location: None,
                suggestions: vec![String::from_str("Review control flow logic")],
            });
            proof {
                lemma_undef_preserved(before, errs@);
                assert(errs@[errs@.len() - 1].error_type == SemanticErrorType::UnreachableCode);
                assert(has_error_of(errs@, SemanticErrorType::UnreachableCode));
            }
        } else {
            proof {
                assert(!has_error_of(errs@, SemanticErrorType::UnreachableCode));
            }
        }
        let ghost with_unreachable = errs@;
        let ghost n_undef = count_undef(ops@, variables@, functions@, ops@.len() as int);
        let mut i2: usize = 0;
        while i2 < ops.len()
            invariant
                i2 <= ops@.len(),
                ops@ == intent.operations@,
                vars_v == variables@,
                funcs_v == functions@,
                n_undef == count_undef(ops@, variables@, functions@, ops@.len() as int),
                undefined_only.len() == n_undef,
                with_unreachable.len() >= undefined_only.len(),
                errs@.len() >= with_unreachable.len(),
                errs@.subrange(0, with_unreachable.len() as int) == with_unreachable,
                forall|k: int| with_unreachable.len() <= k < errs@.len()
                    ==> (#[trigger] errs@[k]).error_type == SemanticErrorType::InfiniteLoop,
                forall|i3: int| 0 <= i3 < i2 && is_infinite_loop_op(#[trigger] ops@[i3])
                    ==> has_error_of(errs@, SemanticErrorType::InfiniteLoop),
                has_error_of(errs@, SemanticErrorType::InfiniteLoop)
                    ==> exists|i3: int| 0 <= i3 < ops@.len() && is_infinite_loop_op(ops@[i3]),
                forall|i4: int, j4: int| 0 <= i4 < ops@.len() && 0 <= j4 < ops@[i4].inputs@.len()
                    && !name_resolves(variables@, functions@, #[trigger] input_view(ops@, i4, j4))
                    ==> {
                        let pos = count_undef(ops@, variables@, functions@, i4)
                            + count_undef_in(ops@[i4].inputs@, variables@, functions@, j4);
                        0 <= pos < errs@.len()
                            && is_undefined_error(errs@[pos], input_view(ops@, i4, j4))
                    },
                forall|k: int| 0 <= k < errs@.len()
                    ==> ((#[trigger] errs@[k]).error_type == SemanticErrorType::UndefinedVariable
                        <==> k < count_undef(ops@, variables@, functions@, ops@.len() as int)),
                (intent.control_flow.nodes@.len() > ops@.len() + 2)
                    <==> has_error_of(errs@, SemanticErrorType::UnreachableCode),
                forall|k: int| 0 <= k < errs@.len()
                    && (#[trigger] errs@[k]).error_type == SemanticErrorType::UndefinedVariable
                    ==> undef_error_justified(*intent, variables@, functions@, errs@[k]),
                forall|k: int| 0 <= k < errs@.len()
                    ==> (#[trigger] errs@[k]).error_type == SemanticErrorType::UndefinedVariable
                        || errs@[k].error_type == SemanticErrorType::UnreachableCode
                        || errs@[k].error_type == SemanticErrorType::InfiniteLoop,
            decreases ops@.len() - i2,
        {
            let ghost before = errs@;
            let op = &ops[i2];
            let mut is_inf = false;
            match &op.operation_type {
                OperationType::Loop { condition, .. } => {
                    if *condition == String::from_str("true") || *condition == String::from_str("1") {
                        is_inf = true;
                    }
                },
                _ => {},
            }
            if is_inf {
                errs.push(SemanticError {
                    error_type: SemanticErrorType::InfiniteLoop,
                    message: String::from_str("Potential infinite loop detected"),
                    location: Some(SourceLocation {
                        line: 1,
                        column: 1,
                        context: op.description.clone(),
                    }),
                    suggestions: vec![
                        String::from_str("Add loop termination condition"),
                        String::from_str("Ensure loop variable is modified"),
                    ],
                });
                proof {
                    assert(is_infinite_loop_op(ops@[i2 as int]));
                    assert(errs@[errs@.len() - 1].error_type == SemanticErrorType::InfiniteLoop);
                    assert(errs@.subrange(0, with_unreachable.len() as int)
                        =~= before.subrange(0, with_unreachable.len() as int));
                    lemma_undef_preserved(before, errs@);
                    lemma_type_preserved(before, errs@, SemanticErrorType::UnreachableCode);
                    lemma_type_preserved(before, errs@, SemanticErrorType::InfiniteLoop);
                    assert forall|k: int| 0 <= k < errs@.len()
                        implies ((#[trigger] errs@[k]).error_type == SemanticErrorType::UndefinedVariable
                            <==> k < n_undef) by {
                        if k < before.len() {
                            assert(errs@[k] == before[k]);
                        } else {
                            assert(errs@[k].error_type == SemanticErrorType::InfiniteLoop);
                            assert(k >= with_unreachable.len());
                        }
                    }
                    assert forall|i4: int, j4: int| 0 <= i4 < ops@.len()
                        && 0 <= j4 < ops@[i4].inputs@.len()
                        && !name_resolves(variables@, functions@, #[trigger] input_view(ops@, i4, j4))
                        implies {
                            let pos = count_undef(ops@, variables@, functions@, i4)
                                + count_undef_in(ops@[i4].inputs@, variables@, functions@, j4);
                            0 <= pos < errs@.len()
                                && is_undefined_error(errs@[pos], input_view(ops@, i4, j4))
                        } by {
                        let pos = count_undef(ops@, variables@, functions@, i4)
                            + count_undef_in(ops@[i4].inputs@, variables@, functions@, j4);
                        assert(0 <= pos < before.len()
                            && is_undefined_error(before[pos], input_view(ops@, i4, j4)));
                        assert(errs@[pos] == before[pos]);
                    }
                }
            }
            i2 += 1;
        }
        errs
    }

    fn resolves(variables: &Vec<VariableInfo>, functions: &Vec<FunctionInfo>, name: &String) -> (r: bool)
        ensures
            r == name_resolves(variables@, functions@, name@),
    {
        let mut k: usize = 0;
        while k < variables.len()
            invariant
                k <= variables@.len(),
                forall|k2: int| 0 <= k2 < k ==> (#[trigger] variables@[k2]).name@ != name@,
            decreases variables@.len() - k,
        {
            if variables[k].name == *name {
                return true;
            }
            k += 1;
        }
        let mut k2: usize = 0;
        while k2 < functions.len()
            invariant
                k2 <= functions@.len(),
                forall|k3: int| 0 <= k3 < k2 ==> (#[trigger] functions@[k3]).name@ != name@,
            decreases functions@.len() - k2,
        {
            if functions[k2].name == *name {
                return true;
            }
            k2 += 1;
        }
        false
    }

    /// Derive the deterministic safety constraints.
    fn generate_safety_constraints(
        &self,
        intent: &ProgramIntent,
        variables: &Vec<VariableInfo>,
    ) -> (r: Vec<SafetyConstraint>)
        ensures
            safety_ok(variables@, intent.operations@, r@),
    {
        let vars = variables;
        let ops = &intent.operations;
        let mut out: Vec<SafetyConstraint> = Vec::new();
        let mut i: usize = 0;
        while i < vars.len()
            invariant
                i <= vars@.len(),
                out@.len() == count_ptr(vars@, i as int),
                out@.len() <= i,
                forall|k: int| 0 <= k < i && is_pointer_var(#[trigger] vars@[k])
                    ==> is_null_check(out@[count_ptr(vars@, k)], vars@[k].name@),
            decreases vars@.len() - i,
        {
            let ghost old_out = out@;
            let v = &vars[i];
            let is_ptr = match &v.data_type {
                DataType::Pointer { .. } => true,
                _ => false,
            };
            if is_ptr {
                let mut desc = String::from_str("Null pointer check required for ");
                desc.append(v.name.as_str());
                let mut affected: Vec<String> = Vec::new();
                affected.push(v.name.clone());
                let c = SafetyConstraint {
                    constraint_type: SafetyConstraintType::NullPointerCheck,
                    description: desc,
                    affected_variables: affected,
                    severity: ConstraintSeverity::Critical,
                };
                proof {
                    assert(c.affected_variables.deep_view() =~= seq![vars@[i as int].name@]);
                    assert(is_null_check(c, vars@[i as int].name@));
                }
                out.push(c);
            }
            proof {
                assert forall|k: int| 0 <= k < i + 1 && is_pointer_var(#[trigger] vars@[k])
                    implies is_null_check(out@[count_ptr(vars@, k)], vars@[k].name@) by {
                    lemma_count_ptr_mono(vars@, k, i as int);
                    if k < i {
                        assert(count_ptr(vars@, k + 1) == count_ptr(vars@, k) + 1);
                        lemma_count_ptr_mono(vars@, k + 1, i as int);
                        assert(out@[count_ptr(vars@, k)] == old_out[count_ptr(vars@, k)]);
                    } else {
                        assert(out@[count_ptr(vars@, k)] == out@[old_out.len() as int]);
                    }
                }
            }
            i += 1;
        }
        let ghost np = count_ptr(vars@, vars@.len() as int);
        proof {
            lemma_count_ptr_mono(vars@, 0, vars@.len() as int);
        }
        let mut i2: usize = 0;
        while i2 < vars.len()
            invariant
                i2 <= vars@.len(),
                np == count_ptr(vars@, vars@.len() as int),
                out@.len() == np + count_arr(vars@, i2 as int),
                0 <= count_arr(vars@, i2 as int) <= i2,
                forall|k: int| 0 <= k < vars@.len() && is_pointer_var(#[trigger] vars@[k])
                    ==> is_null_check(out@[count_ptr(vars@, k)], vars@[k].name@),
                forall|k: int| 0 <= k < i2 && is_array_var(#[trigger] vars@[k])
                    ==> is_bounds_check(out@[np + count_arr(vars@, k)], vars@[k].name@),
            decreases vars@.len() - i2,
        {
            let ghost old_out = out@;
            let v = &vars[i2];
            let is_arr = match &v.data_type {
                DataType::Array { .. } => true,
                _ => false,
            };
            if is_arr {
                let mut desc = String::from_str("Array bounds check required for ");
                desc.append(v.name.as_str());
                let mut affected: Vec<String> = Vec::new();
                affected.push(v.name.clone());
                let c = SafetyConstraint {
                    constraint_type: SafetyConstraintType::BoundsCheck,
                    description: desc,
                    affected_variables: affected,
                    severity: ConstraintSeverity::High,
                };
                proof {
                    assert(c.affected_variables.deep_view() =~= seq![vars@[i2 as int].name@]);
                    assert(is_bounds_check(c, vars@[i2 as int].name@));
                }
                out.push(c);
            }
            proof {
                lemma_count_ptr_mono(vars@, i2 as int, vars@.len() as int);
                assert forall|k: int| 0 <= k < vars@.len() && is_pointer_var(#[trigger] vars@[k])
                    implies is_null_check(out@[count_ptr(vars@, k)], vars@[k].name@) by {
                    lemma_count_ptr_mono(vars@, k, vars@.len() as int);
                    lemma_count_ptr_mono(vars@, k + 1, vars@.len() as int);
                    assert(count_ptr(vars@, k) < np || !is_pointer_var(vars@[k]));
                    assert(out@[count_ptr(vars@, k)] == old_out[count_ptr(vars@, k)]);
                }
                assert forall|k: int| 0 <= k < i2 + 1 && is_array_var(#[trigger] vars@[k])
                    implies is_bounds_check(out@[np + count_arr(vars@, k)], vars@[k].name@) by {
                    lemma_count_ptr_mono(vars@, k, i2 as int);
                    if k < i2 {
                        assert(count_arr(vars@, k + 1) == count_arr(vars@, k) + 1);
                        lemma_count_ptr_mono(vars@, k + 1, i2 as int);
                        assert(out@[np + count_arr(vars@, k)] == old_out[np + count_arr(vars@, k)]);
                    } else {
                        assert(out@[np + count_arr(vars@, k)] == out@[old_out.len() as int]);
                    }
                }
            }
            i2 += 1;
        }
        let ghost nb = count_arr(vars@, vars@.len() as int);
        let mut i3: usize = 0;
        while i3 < ops.len()
            invariant
                i3 <= ops@.len(),
                np == count_ptr(vars@, vars@.len() as int),
                nb == count_arr(vars@, vars@.len() as int),
                0 <= nb,
                out@.len() == np + nb + crate::intent_extractor::count_arith(ops@, i3 as int),
                0 <= crate::intent_extractor::count_arith(ops@, i3 as int) <= i3,
                forall|k: int| 0 <= k < vars@.len() && is_pointer_var(#[trigger] vars@[k])
                    ==> is_null_check(out@[count_ptr(vars@, k)], vars@[k].name@),
                forall|k: int| 0 <= k < vars@.len() && is_array_var(#[trigger] vars@[k])
                    ==> is_bounds_check(out@[np + count_arr(vars@, k)], vars@[k].name@),
                forall|k: int| 0 <= k < i3
                    && ((#[trigger] ops@[k]).operation_type matches OperationType::Arithmetic { .. })
                    ==> is_overflow_check(out@[np + nb + crate::intent_extractor::count_arith(ops@, k)], ops@[k]),
            decreases ops@.len() - i3,
        {
            let ghost old_out = out@;
            let op = &ops[i3];
            let is_ar = match &op.operation_type {
                OperationType::Arithmetic { .. } => true,
                _ => false,
            };
            if is_ar {
                let c = SafetyConstraint {
                    constraint_type: SafetyConstraintType::OverflowCheck,
                    description: String::from_str("Integer overflow check for arithmetic operation"),
                    affected_variables: crate::intent_extractor::copy_strings(&op.inputs),
                    severity: ConstraintSeverity::Medium,
                };
                proof {
                    assert(is_overflow_check(c, ops@[i3 as int]));
                }
                out.push(c);
            }
            proof {
                lemma_count_ptr_mono(vars@, 0, vars@.len() as int);
                assert forall|k: int| 0 <= k < vars@.len() && is_pointer_var(#[trigger] vars@[k])
                    implies is_null_check(out@[count_ptr(vars@, k)], vars@[k].name@) by {
                    lemma_count_ptr_mono(vars@, k, vars@.len() as int);
                    lemma_count_ptr_mono(vars@, k + 1, vars@.len() as int);
                    assert(out@[count_ptr(vars@, k)] == old_out[count_ptr(vars@, k)]);
                }
                assert forall|k: int| 0 <= k < vars@.len() && is_array_var(#[trigger] vars@[k])
                    implies is_bounds_check(out@[np + count_arr(vars@, k)], vars@[k].name@) by {
                    lemma_count_ptr_mono(vars@, k, vars@.len() as int);
                    lemma_count_ptr_mono(vars@, k + 1, vars@.len() as int);
                    assert(out@[np + count_arr(vars@, k)] == old_out[np + count_arr(vars@, k)]);
                }
                assert forall|k: int| 0 <= k < i3 + 1
                    && ((#[trigger] ops@[k]).operation_type matches OperationType::Arithmetic { .. })
                    implies is_overflow_check(out@[np + nb + crate::intent_extractor::count_arith(ops@, k)], ops@[k]) by {
                    crate::intent_extractor::lemma_count_loops_bounds(ops@, k);
                    if k < i3 {
                        assert(crate::intent_extractor::count_arith(ops@, k + 1)
                            == crate::intent_extractor::count_arith(ops@, k) + 1);
                        lemma_count_arith_mono(ops@, k + 1, i3 as int);
                        assert(out@[np + nb + crate::intent_extractor::count_arith(ops@, k)]
                            == old_out[np + nb + crate::intent_extractor::count_arith(ops@, k)]);
                    } else {
                        assert(out@[np + nb + crate::intent_extractor::count_arith(ops@, k)]
                            == out@[old_out.len() as int]);
                    }
                }
            }
            i3 += 1;
        }
        out
    }

    /// Sum primitive sizes into stack and static segments by scope.
    fn calculate_memory_layout(&self, variables: &Vec<VariableInfo>) -> (r: MemoryLayout)
        ensures
            layout_ok(variables@, r),
    {
        let mut stack: usize = 0;
        let mut stat: usize = 0;
        let mut align_reqs: Vec<AlignmentRequirement> = Vec::new();
        let mut i: usize = 0;
        while i < variables.len()
            invariant
                i <= variables@.len(),
                stack == sat_usize_nat(stack_sum(variables@, i as int)),
                stat == sat_usize_nat(static_sum(variables@, i as int)),
                forall|k: int| 0 <= k < align_reqs@.len()
                    ==> (#[trigger] align_reqs@[k]).required_alignment > 1,
            decreases variables@.len() - i,
        {
            let v = &variables[i];
            let size = Self::prim_size(&v.data_type);
            let stacked = match &v.scope {
                crate::intent_extractor::Scope::Function { .. } => true,
                crate::intent_extractor::Scope::Block { .. } => true,
                crate::intent_extractor::Scope::Global => false,
            };
            if stacked {
                if stack > usize::MAX - size {
                    stack = usize::MAX;
                } else {
                    stack = stack + size;
                }
            } else {
                if stat > usize::MAX - size {
                    stat = usize::MAX;
                } else {
                    stat = stat + size;
                }
            }
            let alignment = Self::prim_align(&v.data_type);
            if alignment > 1 {
                let mut reason = String::from_str("Type ");
                reason.append(type_label(&v.data_type));
                reason.append(" requires wider than byte alignment");
                align_reqs.push(AlignmentRequirement {
                    variable_name: v.name.clone(),
                    required_alignment: alignment,
                    reason,
                });
            }
            i += 1;
        }
        let total = if stack > usize::MAX - stat {
            usize::MAX
        } else {
            stack + stat
        };
        proof {
            let n = variables@.len() as int;
            assert(total == sat_usize_nat(stack_sum(variables@, n) + static_sum(variables@, n)));
        }
        MemoryLayout {
            total_size: total,
            stack_size: stack,
            heap_size: 0,
            static_size: stat,
            alignment_requirements: align_reqs,
        }
    }

    fn prim_size(dt: &DataType) -> (r: usize)
        ensures
            r == spec_prim_size(*dt),
    {
        match dt {
            DataType::Integer { bits, .. } => (bits / 8) as usize,
            DataType::Float { precision } => match precision {
                FloatPrecision::Single => 4,
                FloatPrecision::Double => 8,
            },
            DataType::Boolean => 1,
            _ => 8,
        }
    }

    fn prim_align(dt: &DataType) -> (r: usize)
        ensures
            r == spec_prim_align(*dt),
    {
        match dt {
            DataType::Integer { bits, .. } => {
                let b = (bits / 8) as usize;
                if b > 8 {
                    8
                } else if b == 0 {
                    1
                } else {
                    b
                }
            },
            DataType::Float { precision } => match precision {
                FloatPrecision::Single => 4,
                FloatPrecision::Double => 8,
            },
            DataType::Boolean => 1,
            _ => 8,
        }
    }

    /// Build the single global scope and its symbols: every data structure
    /// as a defined variable symbol, then every called function name as an
    /// undefined, used function symbol.
    fn build_symbol_table(&self, intent: &ProgramIntent) -> (r: SymbolTable)
        ensures
            r.scopes@.len() == 1,
            r.current_scope == 0,
            r.scopes@[0].id == 0,
            r.scopes@[0].parent is None,
            r.scopes@[0].scope_type == ScopeType::Global,
            r.global_symbols@.len() == intent.data_structures@.len()
                + count_calls(intent.operations@, intent.operations@.len() as int),
            forall|k: int| 0 <= k < intent.data_structures@.len()
                ==> (#[trigger] r.global_symbols@[k]).name@ == intent.data_structures@[k].name@
                    && r.global_symbols@[k].symbol_type == SymbolType::Variable
                    && r.global_symbols@[k].is_defined
                    && !r.global_symbols@[k].is_used,
    {
        let mut symbols: Vec<Symbol> = Vec::new();
        let mut i: usize = 0;
        while i < intent.data_structures.len()
            invariant
                i <= intent.data_structures@.len(),
                symbols@.len() == i,
                forall|k: int| 0 <= k < i
                    ==> (#[trigger] symbols@[k]).name@ == intent.data_structures@[k].name@
                        && symbols@[k].symbol_type == SymbolType::Variable
                        && symbols@[k].is_defined
                        && !symbols@[k].is_used,
            decreases intent.data_structures@.len() - i,
        {
            let ds = &intent.data_structures[i];
            symbols.push(Symbol {
                name: ds.name.clone(),
                symbol_type: SymbolType::Variable,
                data_type: String::from_str(type_label(&ds.data_type)),
                is_defined: true,
                is_used: false,
                definition_location: Some(SourceLocation {
                    line: 1,
                    column: 1,
                    context: String::from_str("data structure definition"),
                }),
                usage_locations: Vec::new(),
            });
            i += 1;
        }
        let ghost nds = intent.data_structures@.len();
        let ops = &intent.operations;
        let mut i2: usize = 0;
        while i2 < ops.len()
            invariant
                i2 <= ops@.len(),
                symbols@.len() == nds + count_calls(ops@, i2 as int),
                0 <= count_calls(ops@, i2 as int) <= i2,
                forall|k: int| 0 <= k < nds
                    ==> (#[trigger] symbols@[k]).name@ == intent.data_structures@[k].name@
                        && symbols@[k].symbol_type == SymbolType::Variable
                        && symbols@[k].is_defined
                        && !symbols@[k].is_used,
            decreases ops@.len() - i2,
        {
            let op = &ops[i2];
            match &op.operation_type {
                OperationType::FunctionCall { name, .. } => {
                    let mut usage: Vec<SourceLocation> = Vec::new();
                    usage.push(SourceLocation {
                        line: 1,
                        column: 1,
                        context: op.description.clone(),
                    });
                    symbols.push(Symbol {
                        name: name.clone(),
                        symbol_type: SymbolType::Function,
                        data_type: String::from_str("function"),
                        is_defined: false,
                        is_used: true,
                        definition_location: None,
                        usage_locations: usage,
                    });
                },
                _ => {},
            }
            i2 += 1;
        }
        let mut scopes: Vec<Scope> = Vec::new();
        scopes.push(Scope {
            id: 0,
            parent: None,
            symbols: Vec::new(),
            scope_type: ScopeType::Global,
        });
        SymbolTable {
            scopes,
            current_scope: 0,
            global_symbols: symbols,
        }
    }

    /// Perform the whole semantic analysis; never fails, all problems are
    /// recorded in the model's error list.
    pub fn analyze(&self, intent: &ProgramIntent) -> (r: SemanticModel)
        ensures
            r.variables@.len() == intent.data_structures@.len(),
            forall|i: int| 0 <= i < r.variables@.len()
                ==> var_info_ok(#[trigger] r.variables@[i], intent.data_structures@[i], intent.operations@),
            functions_ok(intent.operations@, r.functions@),
            primitive_types_ok(r.types@),
            errors_ok(*intent, r.variables@, r.functions@, r.semantic_errors@),
            safety_ok(r.variables@, intent.operations@, r.safety_constraints@),
            layout_ok(r.variables@, r.memory_layout),
            r.symbol_table.scopes@.len() == 1,
            r.symbol_table.global_symbols@.len() == intent.data_structures@.len()
                + count_calls(intent.operations@, intent.operations@.len() as int),
    {
        let symbol_table = self.build_symbol_table(intent);
        let variables = self.analyze_variables(intent);
        let functions = self.analyze_functions(intent);
        let types = self.analyze_types(intent);
        let semantic_errors = self.validate_semantics(intent, &variables, &functions);
        let safety_constraints = self.generate_safety_constraints(intent, &variables);
        let memory_layout = self.calculate_memory_layout(&variables);
        SemanticModel {
            variables,
            functions,
            types,
            memory_layout,
            safety_constraints,
            symbol_table,
            semantic_errors,
        }
    }

    /// The prompt for the semantic-analysis oracle call; the reply only
    /// adds free-text insight and is not folded back into the model.
    pub fn semantic_prompt(&self, intent: &ProgramIntent) -> (r: String)
        ensures
            r@ == "Review the extracted program intent for type compatibility issues, potential runtime errors, and memory safety concerns. Operations and data structures follow.\n"@,
    {
        String::from_str(
            "Review the extracted program intent for type compatibility issues, potential runtime errors, and memory safety concerns. Operations and data structures follow.\n",
        )
    }
}

pub proof fn lemma_count_arith_mono(ops: Seq<Operation>, a: int, b: int)
    requires
        0 <= a <= b,
    ensures
        crate::intent_extractor::count_arith(ops, a) <= crate::intent_extractor::count_arith(ops, b),
    decreases b - a,
{
    if a < b {
        lemma_count_arith_mono(ops, a, b - 1);
        crate::intent_extractor::lemma_count_loops_bounds(ops, b);
    }
}

} // verus!
