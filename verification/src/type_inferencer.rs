//! Type inference: a fully specified type for every named entity, the
//! pairwise conversion-cost table, and the planned stack and static memory
//! layout. Sizes and alignments are pure functions of the base type.

use vstd::prelude::*;
use vstd::string::StringExecFns;
use crate::intent_extractor::{ProgramIntent, Operation, OperationType, ArithmeticOp, DataType,
    DataStructure};
use crate::semantic_analyzer::{SemanticModel, SafetyConstraint, SafetyConstraintType};

verus! {

#[derive(Debug, Clone, Copy, PartialEq, Eq, Structural)]
pub enum FloatPrecision {
    Half,
    Single,
    Double,
    Extended,
    Quad,
}

#[derive(Debug, Clone, Copy, PartialEq, Eq, Structural)]
pub enum StringEncoding {
    Utf8,
    Utf16,
    Utf32,
    Ascii,
}

#[derive(Debug, Clone, Copy, PartialEq, Eq, Structural)]
pub enum ArrayLength {
    Fixed(usize),
    Dynamic,
    Unknown,
}

#[derive(Debug, Clone, Copy, PartialEq, Eq, Structural)]
pub enum Lifetime {
    Static,
    Function,
    Block,
    Parameter,
    Heap,
    Unknown,
}

#[derive(Debug, Clone, Copy, PartialEq, Eq, Structural)]
pub enum Mutability {
    Immutable,
    Mutable,
    Unknown,
}

#[derive(Debug, Clone, Copy, PartialEq, Eq, Structural)]
pub enum Ownership {
    Owned,
    Borrowed,
    Shared,
    Weak,
    Unknown,
}

#[derive(Debug)]
pub enum BaseType {
    Integer { bits: u8, signed: bool },
    Float { precision: FloatPrecision },
    Boolean,
    Character,
    String { encoding: StringEncoding },
    Array { element_type: Box<InferredType>, length: ArrayLength },
    Slice { element_type: Box<InferredType> },
    Pointer { target_type: Box<InferredType>, is_const: bool },
    Reference { target_type: Box<InferredType>, is_const: bool },
    Struct { fields: Vec<TypeField> },
    Union { variants: Vec<TypeField> },
    Enum { variants: Vec<String>, underlying_type: Box<InferredType> },
    Function { params: Vec<InferredType>, return_type: Box<InferredType> },
    Generic { name: String, bounds: Vec<String> },
    Void,
}

/// A named field of a struct- or union-valued inferred type.
#[derive(Debug)]
pub struct TypeField {
    pub name: String,
    pub field_type: InferredType,
}

/// A fully specified type.
#[derive(Debug)]
pub struct InferredType {
    pub name: String,
    pub base_type: BaseType,
    pub size_bytes: usize,
    pub alignment: usize,
    pub is_nullable: bool,
    pub lifetime: Lifetime,
    pub mutability: Mutability,
    pub ownership: Ownership,
    pub constraints: Vec<String>,
}

#[derive(Debug, Clone, Copy, PartialEq, Eq, Structural)]
pub enum ConstraintSeverity {
    Error,
    Warning,
    Info,
}

#[derive(Debug, Clone, Copy, PartialEq, Eq, Structural)]
pub enum TypeConstraintType {
    SizeConstraint,
    AlignmentConstraint,
    LifetimeConstraint,
    MutabilityConstraint,
    NullabilityConstraint,
    ThreadSafetyConstraint,
    NumericRangeConstraint,
}

#[derive(Debug, Clone)]
pub struct TypeConstraint {
    pub constraint_type: TypeConstraintType,
    pub affected_types: Vec<String>,
    pub description: String,
    pub severity: ConstraintSeverity,
    pub required_alignment: Option<usize>,
    pub nullable: Option<bool>,
}

#[derive(Debug, Clone)]
pub struct StackVariable {
    pub name: String,
    pub offset: usize,
    pub size: usize,
    pub alignment: usize,
}

#[derive(Debug, Clone)]
pub struct StackLayout {
    pub frame_size: usize,
    pub variables: Vec<StackVariable>,
    pub spill_slots: usize,
    pub alignment: usize,
}

#[derive(Debug, Clone, Copy, PartialEq, Eq, Structural)]
pub enum AllocationType {
    SmallObject,
    LargeObject,
    Array,
    String,
    Closure,
}

#[derive(Debug, Clone, Copy, PartialEq, Eq, Structural)]
pub enum AllocationFrequency {
    Once,
    Rare,
    Occasional,
    Frequent,
    Constant,
}

#[derive(Debug, Clone, Copy, PartialEq, Eq, Structural)]
pub enum GarbageCollectionStrategy {
    NoCollection,
    ReferenceCounting,
    MarkAndSweep,
    Generational,
    Incremental,
}

#[derive(Debug, Clone)]
pub struct AllocationPattern {
    pub pattern_type: AllocationType,
    pub estimated_size: usize,
    pub frequency: AllocationFrequency,
    pub lifetime: Lifetime,
}

#[derive(Debug, Clone)]
pub struct HeapLayout {
    pub estimated_allocations: usize,
    pub allocation_patterns: Vec<AllocationPattern>,
    pub gc_strategy: GarbageCollectionStrategy,
}

#[derive(Debug, Clone)]
pub struct StaticVariable {
    pub name: String,
    pub offset: usize,
    pub size: usize,
    pub is_initialized: bool,
}

#[derive(Debug, Clone)]
pub struct StaticConstant {
    pub name: String,
    pub value: String,
    pub data_type: String,
    pub size: usize,
}

#[derive(Debug, Clone)]
pub struct StringLiteral {
    pub content: String,
    pub encoding: StringEncoding,
    pub offset: usize,
    pub size: usize,
}

#[derive(Debug, Clone)]
pub struct StaticLayout {
    pub global_variables: Vec<StaticVariable>,
    pub constants: Vec<StaticConstant>,
    pub string_literals: Vec<StringLiteral>,
    pub total_size: usize,
}

#[derive(Debug, Clone, Copy, PartialEq, Eq, Structural)]
pub enum MemoryPoolType {
    FixedSize,
    Variable,
    Stack,
    Ring,
}

#[derive(Debug, Clone, Copy, PartialEq, Eq, Structural)]
pub enum PoolUsagePattern {
    Sequential,
    Random,
    LIFO,
    FIFO,
}

#[derive(Debug, Clone)]
pub struct MemoryPool {
    pub name: String,
    pub pool_type: MemoryPoolType,
    pub size: usize,
    pub alignment: usize,
    pub usage_pattern: PoolUsagePattern,
}

#[derive(Debug, Clone)]
pub struct MemoryLayoutPlan {
    pub total_size: usize,
    pub stack_layout: StackLayout,
    pub heap_layout: HeapLayout,
    pub static_layout: StaticLayout,
    pub alignment_padding: usize,
    pub memory_pools: Vec<MemoryPool>,
}

#[derive(Debug, Clone, Copy, PartialEq, Eq, Structural)]
pub enum ConversionType {
    Implicit,
    Explicit,
    Coercion,
    Cast,
    Constructor,
}

#[derive(Debug, Clone, Copy, PartialEq, Eq, Structural)]
pub enum ConversionCost {
    Free,
    Cheap,
    Moderate,
    Expensive,
    Prohibited,
}

/// One entry of the pairwise conversion table.
#[derive(Debug, Clone)]
pub struct TypeConversion {
    pub from_type: String,
    pub to_type: String,
    pub conversion_type: ConversionType,
    pub is_safe: bool,
    pub cost: ConversionCost,
}

/// The inferred type model. The `types` table is a name-to-type list in
/// insertion order.
#[derive(Debug)]
pub struct TypeModel {
    pub types: Vec<(String, InferredType)>,
    pub type_constraints: Vec<TypeConstraint>,
    pub memory_layout: MemoryLayoutPlan,
    pub type_conversions: Vec<TypeConversion>,
    pub generic_instantiations: Vec<(String, Vec<String>)>,
}

/// Byte size as a pure function of the base type: integers by width,
/// floats by precision (half 2, single 4, double 8, extended 10, quad 16),
/// booleans one byte, characters four, strings a 24-byte header, fixed
/// arrays element size times length, dynamic arrays a 16-byte header,
/// pointers and references eight bytes, structs the sum of their field
/// sizes, and a machine word for the rest.
pub open spec fn spec_type_size(b: BaseType) -> nat {
    match b {
        BaseType::Integer { bits, .. } => (bits / 8) as nat,
        BaseType::Float { precision } => match precision {
            FloatPrecision::Half => 2,
            FloatPrecision::Single => 4,
            FloatPrecision::Double => 8,
            FloatPrecision::Extended => 10,
            FloatPrecision::Quad => 16,
        },
        BaseType::Boolean => 1,
        BaseType::Character => 4,
        BaseType::String { .. } => 24,
        BaseType::Array { element_type, length } => match length {
            ArrayLength::Fixed(len) => (element_type.size_bytes as nat) * (len as nat),
            _ => 16,
        },
        BaseType::Pointer { .. } => 8,
        BaseType::Reference { .. } => 8,
        BaseType::Struct { fields } => sum_field_sizes(fields@, fields@.len() as int),
        BaseType::Function { .. } => 8,
        _ => 8,
    }
}

pub open spec fn sum_field_sizes(fields: Seq<TypeField>, upto: int) -> nat
    decreases upto,
{
    if upto <= 0 {
        0
    } else {
        sum_field_sizes(fields, upto - 1) + fields[upto - 1].field_type.size_bytes as nat
    }
}

/// Alignment as a pure function of the base type: integers by width capped
/// at eight, floats by precision (extended aligns at 8, quad at 16),
/// arrays by their element, structs by their widest field, and a machine
/// word for the rest.
pub open spec fn spec_type_align(b: BaseType) -> nat {
    match b {
        BaseType::Integer { bits, .. } => if bits / 8 > 8 {
            8
        } else {
            (bits / 8) as nat
        },
        BaseType::Float { precision } => match precision {
            FloatPrecision::Half => 2,
            FloatPrecision::Single => 4,
            FloatPrecision::Double => 8,
            FloatPrecision::Extended => 8,
            FloatPrecision::Quad => 16,
        },
        BaseType::Boolean => 1,
        BaseType::Character => 4,
        BaseType::String { .. } => 8,
        BaseType::Array { element_type, .. } => element_type.alignment as nat,
        BaseType::Pointer { .. } => 8,
        BaseType::Reference { .. } => 8,
        BaseType::Struct { fields } => max_field_align(fields@, fields@.len() as int),
        BaseType::Function { .. } => 8,
        _ => 8,
    }
}

/// The widest field alignment, eight when there are no fields.
pub open spec fn max_field_align(fields: Seq<TypeField>, upto: int) -> nat
    decreases upto,
{
    if upto <= 0 {
        8
    } else {
        let rest = max_field_align(fields, upto - 1);
        let cur = fields[upto - 1].field_type.alignment as nat;
        if upto == 1 {
            cur
        } else if cur > rest {
            cur
        } else {
            rest
        }
    }
}

pub open spec fn sat_usize(n: nat) -> usize {
    if n > usize::MAX {
        usize::MAX
    } else {
        n as usize
    }
}

/// The outcome of converting between two base types: same-signedness
/// widening of integers is implicit, free, and safe; narrowing or
/// sign-changing integer conversion is explicit, cheap, and unsafe;
/// integer to float is implicit, cheap, and safe; float to integer is
/// explicit, moderate, and unsafe; any other pair is a prohibited cast.
pub open spec fn spec_conversion(a: BaseType, b: BaseType) -> (ConversionType, bool, ConversionCost) {
    match (a, b) {
        (BaseType::Integer { bits: fb, signed: fs }, BaseType::Integer { bits: tb, signed: ts }) => {
            if fb <= tb && fs == ts {
                (ConversionType::Implicit, true, ConversionCost::Free)
            } else {
                (ConversionType::Explicit, false, ConversionCost::Cheap)
            }
        },
        (BaseType::Integer { .. }, BaseType::Float { .. }) =>
            (ConversionType::Implicit, true, ConversionCost::Cheap),
        (BaseType::Float { .. }, BaseType::Integer { .. }) =>
            (ConversionType::Explicit, false, ConversionCost::Moderate),
        _ => (ConversionType::Cast, false, ConversionCost::Prohibited),
    }
}

/// Type inference agent.
pub struct TypeInferencer {
    pub inferences_run: usize,
}

impl TypeInferencer {
    pub fn new() -> (r: TypeInferencer)
        ensures
            r.inferences_run == 0,
    {
        TypeInferencer { inferences_run: 0 }
    }

    /// Size in bytes of a base type; pure and deterministic, saturated to
    /// the machine word.
    pub fn calculate_type_size(&self, base_type: &BaseType) -> (r: usize)
        ensures
            r == sat_usize(spec_type_size(*base_type)),
    {
        match base_type {
            BaseType::Integer { bits, .. } => (bits / 8) as usize,
            BaseType::Float { precision } => match precision {
                FloatPrecision::Half => 2,
                FloatPrecision::Single => 4,
                FloatPrecision::Double => 8,
                FloatPrecision::Extended => 10,
                FloatPrecision::Quad => 16,
            },
            BaseType::Boolean => 1,
            BaseType::Character => 4,
            BaseType::String { .. } => 24,
            BaseType::Array { element_type, length } => match length {
                ArrayLength::Fixed(len) => {
                    let es = element_type.size_bytes;
                    if *len > 0 && es > usize::MAX / *len {
                        proof {
                            assert(es * (*len as nat) > usize::MAX) by (nonlinear_arith)
                                requires
                                    *len > 0,
                                    es as nat > usize::MAX as nat / (*len as nat),
                            ;
                        }
                        usize::MAX
                    } else {
                        proof {
                            if *len > 0 {
                                assert(es * (*len as nat) <= usize::MAX) by (nonlinear_arith)
                                    requires
                                        *len > 0,
                                        es as nat <= usize::MAX as nat / (*len as nat),
                                ;
                            }
                        }
                        es * len
                    }
                },
                _ => 16,
            },
            BaseType::Pointer { .. } => 8,
            BaseType::Reference { .. } => 8,
            BaseType::Struct { fields } => {
                let mut total: usize = 0;
                let mut i: usize = 0;
                while i < fields.len()
                    invariant
                        i <= fields@.len(),
                        total == sat_usize(sum_field_sizes(fields@, i as int)),
                    decreases fields@.len() - i,
                {
                    let fs = fields[i].field_type.size_bytes;
                    if total > usize::MAX - fs {
                        total = usize::MAX;
                    } else {
                        total = total + fs;
                    }
                    i += 1;
                }
                total
            },
            BaseType::Function { .. } => 8,
            _ => 8,
        }
    }

    /// Alignment of a base type; pure and deterministic.
    pub fn calculate_type_alignment(&self, base_type: &BaseType) -> (r: usize)
        ensures
            r == sat_usize(spec_type_align(*base_type)),
    {
        match base_type {
            BaseType::Integer { bits, .. } => {
                let b = (bits / 8) as usize;
                if b > 8 {
                    8
                } else {
                    b
                }
            },
            BaseType::Float { precision } => match precision {
                FloatPrecision::Half => 2,
                FloatPrecision::Single => 4,
                FloatPrecision::Double => 8,
                FloatPrecision::Extended => 8,
                FloatPrecision::Quad => 16,
            },
            BaseType::Boolean => 1,
            BaseType::Character => 4,
            BaseType::String { .. } => 8,
            BaseType::Array { element_type, .. } => element_type.alignment,
            BaseType::Pointer { .. } => 8,
            BaseType::Reference { .. } => 8,
            BaseType::Struct { fields } => {
                let mut best: usize = 8;
                let mut i: usize = 0;
                while i < fields.len()
                    invariant
                        i <= fields@.len(),
                        best == sat_usize(max_field_align(fields@, i as int)),
                    decreases fields@.len() - i,
                {
                    let fa = fields[i].field_type.alignment;
                    if i == 0 {
                        best = fa;
                    } else if fa > best {
                        best = fa;
                    }
                    i += 1;
                }
                best
            },
            BaseType::Function { .. } => 8,
            _ => 8,
        }
    }

    /// Classify the conversion between two base types.
    pub fn analyze_type_conversion(&self, from: &InferredType, to: &InferredType) -> (r: TypeConversion)
        ensures
            r.conversion_type == spec_conversion(from.base_type, to.base_type).0,
            r.is_safe == spec_conversion(from.base_type, to.base_type).1,
            r.cost == spec_conversion(from.base_type, to.base_type).2,
            r.from_type@ == from.name@,
            r.to_type@ == to.name@,
    {
        let (conversion_type, is_safe, cost) = match (&from.base_type, &to.base_type) {
            (
                BaseType::Integer { bits: fb, signed: fs },
                BaseType::Integer { bits: tb, signed: ts },
            ) => {
                if *fb <= *tb && *fs == *ts {
                    (ConversionType::Implicit, true, ConversionCost::Free)
                } else {
                    (ConversionType::Explicit, false, ConversionCost::Cheap)
                }
            },
            (BaseType::Integer { .. }, BaseType::Float { .. }) => {
                (ConversionType::Implicit, true, ConversionCost::Cheap)
            },
            (BaseType::Float { .. }, BaseType::Integer { .. }) => {
                (ConversionType::Explicit, false, ConversionCost::Moderate)
            },
            _ => (ConversionType::Cast, false, ConversionCost::Prohibited),
        };
        TypeConversion {
            from_type: from.name.clone(),
            to_type: to.name.clone(),
            conversion_type,
            is_safe,
            cost,
        }
    }
}

/// The inferred base type mirrors the intent-level data type.
pub open spec fn bt_mirrors(b: BaseType, dt: DataType) -> bool
    decreases dt,
{
    match dt {
        DataType::Integer { bits, signed } =>
            b matches BaseType::Integer { bits: bb, signed: bs } && bb == bits && bs == signed,
        DataType::Float { precision } => match precision {
            crate::intent_extractor::FloatPrecision::Single =>
                b == (BaseType::Float { precision: FloatPrecision::Single }),
            crate::intent_extractor::FloatPrecision::Double =>
                b == (BaseType::Float { precision: FloatPrecision::Double }),
        },
        DataType::Boolean => b == BaseType::Boolean,
        DataType::String { .. } =>
            b == (BaseType::String { encoding: StringEncoding::Utf8 }),
        DataType::Array { element_type, length } =>
            b matches BaseType::Array { element_type: be, length: bl }
                && bt_mirrors(be.base_type, *element_type)
                && (match length {
                    Some(l) => bl == ArrayLength::Fixed(l),
                    None => bl == ArrayLength::Dynamic,
                }),
        DataType::Struct { fields } =>
            b matches BaseType::Struct { fields: bf } && bf@.len() == fields@.len()
                && forall|i: int| 0 <= i < fields@.len()
                    ==> (#[trigger] bf@[i]).name@ == fields@[i].name@
                        && bt_mirrors(bf@[i].field_type.base_type, fields@[i].field_type),
        DataType::Pointer { target_type } =>
            b matches BaseType::Pointer { target_type: bt, is_const }
                && !is_const && bt_mirrors(bt.base_type, *target_type),
        DataType::Unknown =>
            b matches BaseType::Generic { name, bounds }
                && name@ == "unknown"@ && bounds@.len() == 0,
    }
}

/// An inferred type whose stored size and alignment agree with the pure
/// size and alignment functions of its base type.
pub open spec fn sized_consistently(t: InferredType) -> bool {
    &&& t.size_bytes == sat_usize(spec_type_size(t.base_type))
    &&& t.alignment == sat_usize(spec_type_align(t.base_type))
}

/// What conversion of a data structure's declared type yields.
pub open spec fn converted_ok(t: InferredType, dt: DataType) -> bool {
    &&& bt_mirrors(t.base_type, dt)
    &&& sized_consistently(t)
    &&& !t.is_nullable
    &&& t.lifetime == Lifetime::Unknown
    &&& t.mutability == Mutability::Mutable
    &&& t.ownership == Ownership::Owned
}

/// The 32-bit signed integer result type of add, subtract, and multiply.
pub open spec fn is_arith_result(t: InferredType) -> bool {
    &&& t.name@ == "arithmetic_result"@
    &&& t.base_type == (BaseType::Integer { bits: 32, signed: true })
    &&& t.size_bytes == 4
    &&& t.alignment == 4
    &&& t.lifetime == Lifetime::Function
    &&& t.mutability == Mutability::Immutable
    &&& t.ownership == Ownership::Owned
    &&& t.constraints@.len() == 0
}

/// The double-precision result type of division, constrained to a nonzero
/// divisor.
pub open spec fn is_division_result(t: InferredType) -> bool {
    &&& t.name@ == "division_result"@
    &&& t.base_type == (BaseType::Float { precision: FloatPrecision::Double })
    &&& t.size_bytes == 8
    &&& t.alignment == 8
    &&& t.lifetime == Lifetime::Function
    &&& t.constraints@.len() == 1
    &&& t.constraints@[0]@ == "non_zero_divisor"@
}

/// The one-byte boolean result type of comparisons.
pub open spec fn is_comparison_result(t: InferredType) -> bool {
    &&& t.name@ == "comparison_result"@
    &&& t.base_type == BaseType::Boolean
    &&& t.size_bytes == 1
    &&& t.alignment == 1
    &&& t.lifetime == Lifetime::Function
}

/// Whether an operation produces typed outputs, and which result shape.
pub open spec fn op_result_entry_ok(t: InferredType, op: Operation) -> bool {
    match op.operation_type {
        OperationType::Arithmetic { operator } => match operator {
            ArithmeticOp::Add | ArithmeticOp::Subtract | ArithmeticOp::Multiply => is_arith_result(t),
            ArithmeticOp::Divide => is_division_result(t),
            _ => false,
        },
        OperationType::Comparison { .. } => is_comparison_result(t),
        _ => false,
    }
}

pub open spec fn op_types_outputs(op: Operation) -> bool {
    match op.operation_type {
        OperationType::Arithmetic { operator } => match operator {
            ArithmeticOp::Add | ArithmeticOp::Subtract | ArithmeticOp::Multiply
                | ArithmeticOp::Divide => true,
            _ => false,
        },
        OperationType::Comparison { .. } => true,
        _ => false,
    }
}

/// Every entry at or past `from` is the result type of some operation.
pub open spec fn appended_justified(types: Seq<(String, InferredType)>, from: int, ops: Seq<Operation>) -> bool {
    forall|k: int| from <= k < types.len()
        ==> exists|i: int| 0 <= i < ops.len()
            && op_result_entry_ok((#[trigger] types[k]).1, ops[i])
}

pub open spec fn has_entry_for(types: Seq<(String, InferredType)>, name: Seq<char>, op: Operation) -> bool {
    exists|k: int| 0 <= k < types.len() && (#[trigger] types[k]).0@ == name
        && op_result_entry_ok(types[k].1, op)
}

/// Round an offset up to the next multiple of the alignment.
pub open spec fn spec_round_up(offset: int, align: int) -> int
    recommends
        align >= 1,
{
    ((offset + align - 1) / align) * align
}

/// Rounding as the planner performs it: a zero alignment is treated as
/// byte alignment, and an offset whose rounded value would not fit the
/// machine word is left in place.
pub open spec fn sat_round_up(offset: int, align: int) -> int {
    if align <= 1 {
        offset
    } else if spec_round_up(offset, align) > usize::MAX {
        offset
    } else {
        spec_round_up(offset, align)
    }
}

pub open spec fn sat_add_int(a: int, b: int) -> int {
    if a + b > usize::MAX {
        usize::MAX as int
    } else {
        a + b
    }
}

pub open spec fn on_stack_lifetime(t: InferredType) -> bool {
    t.lifetime == Lifetime::Function || t.lifetime == Lifetime::Block
}

pub open spec fn is_static_lifetime(t: InferredType) -> bool {
    t.lifetime == Lifetime::Static
}

/// Number of stack-lifetime entries among the first `upto` types.
pub open spec fn count_stack(types: Seq<(String, InferredType)>, upto: int) -> int
    decreases upto,
{
    if upto <= 0 {
        0
    } else {
        count_stack(types, upto - 1) + if on_stack_lifetime(types[upto - 1].1) {
            1int
        } else {
            0int
        }
    }
}

/// Number of static-lifetime entries among the first `upto` types.
pub open spec fn count_static(types: Seq<(String, InferredType)>, upto: int) -> int
    decreases upto,
{
    if upto <= 0 {
        0
    } else {
        count_static(types, upto - 1) + if is_static_lifetime(types[upto - 1].1) {
            1int
        } else {
            0int
        }
    }
}

pub proof fn lemma_count_layout_mono(types: Seq<(String, InferredType)>, a: int, b: int)
    requires
        0 <= a <= b,
    ensures
        0 <= count_stack(types, a) <= count_stack(types, b) <= count_stack(types, a) + (b - a),
        0 <= count_static(types, a) <= count_static(types, b) <= count_static(types, a) + (b - a),
    decreases b,
{
    if a < b {
        lemma_count_layout_mono(types, a, b - 1);
    } else if a > 0 {
        lemma_count_layout_mono(types, a - 1, a - 1);
    }
}

/// The running end of the stack frame after laying out the first `upto`
/// types: each stack-lifetime type starts at its alignment-rounded offset
/// and ends a size later, saturating at the machine word.
pub open spec fn stack_end(types: Seq<(String, InferredType)>, upto: int) -> int
    decreases upto,
{
    if upto <= 0 {
        0
    } else {
        let p = stack_end(types, upto - 1);
        if on_stack_lifetime(types[upto - 1].1) {
            sat_add_int(
                sat_round_up(p, types[upto - 1].1.alignment as int),
                types[upto - 1].1.size_bytes as int,
            )
        } else {
            p
        }
    }
}

/// The running end of the static segment after the first `upto` types.
pub open spec fn static_end(types: Seq<(String, InferredType)>, upto: int) -> int
    decreases upto,
{
    if upto <= 0 {
        0
    } else {
        let p = static_end(types, upto - 1);
        if is_static_lifetime(types[upto - 1].1) {
            sat_add_int(
                sat_round_up(p, types[upto - 1].1.alignment as int),
                types[upto - 1].1.size_bytes as int,
            )
        } else {
            p
        }
    }
}

pub proof fn lemma_layout_ends_bounded(types: Seq<(String, InferredType)>, upto: int)
    requires
        upto >= 0,
    ensures
        0 <= stack_end(types, upto) <= usize::MAX,
        0 <= static_end(types, upto) <= usize::MAX,
    decreases upto,
{
    if upto > 0 {
        lemma_layout_ends_bounded(types, upto - 1);
    }
}

impl TypeInferencer {
    /// Convert an intent-level data type to a fully specified type with
    /// consistent size and alignment.
    #[verifier::loop_isolation(false)]
    pub fn convert_data_type_to_inferred(&self, data_type: &DataType) -> (r: InferredType)
        ensures
            converted_ok(r, *data_type),
        decreases *data_type,
    {
        let base_type = match data_type {
            DataType::Integer { bits, signed } => BaseType::Integer { bits: *bits, signed: *signed },
            DataType::Float { precision } => BaseType::Float {
                precision: match precision {
                    crate::intent_extractor::FloatPrecision::Single => FloatPrecision::Single,
                    crate::intent_extractor::FloatPrecision::Double => FloatPrecision::Double,
                },
            },
            DataType::Boolean => BaseType::Boolean,
            DataType::String { .. } => BaseType::String { encoding: StringEncoding::Utf8 },
            DataType::Array { element_type, length } => {
                let element = Box::new(self.convert_data_type_to_inferred(element_type));
                BaseType::Array {
                    element_type: element,
                    length: match length {
                        Some(len) => ArrayLength::Fixed(*len),
                        None => ArrayLength::Dynamic,
                    },
                }
            },
            DataType::Pointer { target_type } => {
                let target = Box::new(self.convert_data_type_to_inferred(target_type));
                BaseType::Pointer { target_type: target, is_const: false }
            },
            DataType::Struct { fields } => {
                let mut out: Vec<TypeField> = Vec::new();
                let mut i: usize = 0;
                while i < fields.len()
                    invariant
                        i <= fields@.len(),
                        out@.len() == i,
                        forall|k: int| 0 <= k < i
                            ==> (#[trigger] out@[k]).name@ == fields@[k].name@
                                && bt_mirrors(out@[k].field_type.base_type, fields@[k].field_type),
                    decreases fields@.len() - i,
                {
                    let f = &fields[i];
                    proof {
                        assert(decreases_to!(*data_type => *fields));
                        assert(decreases_to!(*fields => fields@));
                        assert(decreases_to!(fields@ => fields@[i as int]));
                        assert(decreases_to!(fields@[i as int] => fields@[i as int].field_type));
                        assert(*f == fields@[i as int]);
                        assert(decreases_to!(*data_type => f.field_type));
                    }
                    out.push(TypeField {
                        name: f.name.clone(),
                        field_type: self.convert_data_type_to_inferred(&f.field_type),
                    });
                    i += 1;
                }
                BaseType::Struct { fields: out }
            },
            DataType::Unknown => BaseType::Generic { name: String::from_str("unknown"), bounds: Vec::new() },
        };
        let size_bytes = self.calculate_type_size(&base_type);
        let alignment = self.calculate_type_alignment(&base_type);
        InferredType {
            name: String::from_str(crate::semantic_analyzer::type_label(data_type)),
            base_type,
            size_bytes,
            alignment,
            is_nullable: false,
            lifetime: Lifetime::Unknown,
            mutability: Mutability::Mutable,
            ownership: Ownership::Owned,
            constraints: Vec::new(),
        }
    }

    /// One type entry per data structure, in order.
    fn infer_from_data_structures(&self, intent: &ProgramIntent, types: &mut Vec<(String, InferredType)>)
        requires
            old(types)@.len() == 0,
        ensures
            final(types)@.len() == intent.data_structures@.len(),
            forall|k: int| 0 <= k < final(types)@.len()
                ==> (#[trigger] final(types)@[k]).0@ == intent.data_structures@[k].name@
                    && converted_ok(final(types)@[k].1, intent.data_structures@[k].data_type),
    {
        let mut i: usize = 0;
        while i < intent.data_structures.len()
            invariant
                i <= intent.data_structures@.len(),
                types@.len() == i,
                forall|k: int| 0 <= k < i
                    ==> (#[trigger] types@[k]).0@ == intent.data_structures@[k].name@
                        && converted_ok(types@[k].1, intent.data_structures@[k].data_type),
            decreases intent.data_structures@.len() - i,
        {
            let ds = &intent.data_structures[i];
            let inferred = self.convert_data_type_to_inferred(&ds.data_type);
            types.push((ds.name.clone(), inferred));
            i += 1;
        }
    }

    fn make_arith_result(&self) -> (r: InferredType)
        ensures
            is_arith_result(r),
    {
        InferredType {
            name: String::from_str("arithmetic_result"),
            base_type: BaseType::Integer { bits: 32, signed: true },
            size_bytes: 4,
            alignment: 4,
            is_nullable: false,
            lifetime: Lifetime::Function,
            mutability: Mutability::Immutable,
            ownership: Ownership::Owned,
            constraints: Vec::new(),
        }
    }

    fn make_division_result(&self) -> (r: InferredType)
        ensures
            is_division_result(r),
    {
        let mut constraints: Vec<String> = Vec::new();
        constraints.push(String::from_str("non_zero_divisor"));
        InferredType {
            name: String::from_str("division_result"),
            base_type: BaseType::Float { precision: FloatPrecision::Double },
            size_bytes: 8,
            alignment: 8,
            is_nullable: false,
            lifetime: Lifetime::Function,
            mutability: Mutability::Immutable,
            ownership: Ownership::Owned,
            constraints,
        }
    }

    fn make_comparison_result(&self) -> (r: InferredType)
        ensures
            is_comparison_result(r),
    {
        InferredType {
            name: String::from_str("comparison_result"),
            base_type: BaseType::Boolean,
            size_bytes: 1,
            alignment: 1,
            is_nullable: false,
            lifetime: Lifetime::Function,
            mutability: Mutability::Immutable,
            ownership: Ownership::Owned,
            constraints: Vec::new(),
        }
    }

    /// Result types for operation outputs: add, subtract, and multiply
    /// yield a 32-bit signed integer; divide yields a double with a
    /// nonzero-divisor constraint; comparisons yield a boolean.
    fn infer_from_operations(&self, intent: &ProgramIntent, types: &mut Vec<(String, InferredType)>)
        ensures
            final(types)@.len() >= old(types)@.len(),
            final(types)@.subrange(0, old(types)@.len() as int) == old(types)@,
            appended_justified(final(types)@, old(types)@.len() as int, intent.operations@),
            forall|i: int, j: int| 0 <= i < intent.operations@.len()
                && op_types_outputs(intent.operations@[i])
                && 0 <= j < intent.operations@[i].outputs@.len()
                ==> has_entry_for(final(types)@, (#[trigger] intent.operations@[i].outputs@[j])@, intent.operations@[i]),
    {
        proof {
            assert(types@.subrange(0, types@.len() as int) =~= types@);
        }
        let ghost orig = types@;
        let ops = &intent.operations;
        let mut i: usize = 0;
        while i < ops.len()
            invariant
                i <= ops@.len(),
                ops@ == intent.operations@,
                types@.len() >= orig.len(),
                types@.subrange(0, orig.len() as int) == orig,
                appended_justified(types@, orig.len() as int, intent.operations@),
                forall|i2: int, j2: int| 0 <= i2 < i
                    && op_types_outputs(ops@[i2])
                    && 0 <= j2 < ops@[i2].outputs@.len()
                    ==> has_entry_for(types@, (#[trigger] ops@[i2].outputs@[j2])@, ops@[i2]),
            decreases ops@.len() - i,
        {
            let op = &ops[i];
            let typed = match &op.operation_type {
                OperationType::Arithmetic { operator } => match operator {
                    ArithmeticOp::Add | ArithmeticOp::Subtract | ArithmeticOp::Multiply => true,
                    ArithmeticOp::Divide => true,
                    _ => false,
                },
                OperationType::Comparison { .. } => true,
                _ => false,
            };
            proof {
                assert(typed == op_types_outputs(ops@[i as int]));
            }
            if typed {
                let outputs = &op.outputs;
                let mut j: usize = 0;
                while j < outputs.len()
                    invariant
                        j <= outputs@.len(),
                        i < ops@.len(),
                        ops@ == intent.operations@,
                        outputs@ == ops@[i as int].outputs@,
                        *op == ops@[i as int],
                        op_types_outputs(ops@[i as int]),
                        types@.len() >= orig.len(),
                        types@.subrange(0, orig.len() as int) == orig,
                        appended_justified(types@, orig.len() as int, intent.operations@),
                        forall|i2: int, j2: int| 0 <= i2 < i
                            && op_types_outputs(ops@[i2])
                            && 0 <= j2 < ops@[i2].outputs@.len()
                            ==> has_entry_for(types@, (#[trigger] ops@[i2].outputs@[j2])@, ops@[i2]),
                        forall|j2: int| 0 <= j2 < j
                            ==> has_entry_for(types@, outputs@[j2]@, ops@[i as int]),
                    decreases outputs@.len() - j,
                {
                    let ghost before = types@;
                    let result_type = match &op.operation_type {
                        OperationType::Arithmetic { operator } => match operator {
                            ArithmeticOp::Divide => self.make_division_result(),
                            _ => self.make_arith_result(),
                        },
                        _ => self.make_comparison_result(),
                    };
                    proof {
                        assert(op_result_entry_ok(result_type, ops@[i as int]));
                    }
                    types.push((outputs[j].clone(), result_type));
                    proof {
                        assert(types@.subrange(0, orig.len() as int)
                            =~= before.subrange(0, orig.len() as int));
                        assert(types@[types@.len() - 1].0@ == outputs@[j as int]@);
                        assert(has_entry_for(types@, outputs@[j as int]@, ops@[i as int]));
                        lemma_entry_preserved(before, types@);
                        assert forall|k: int| orig.len() <= k < types@.len()
                            implies exists|i2: int| 0 <= i2 < intent.operations@.len()
                                && op_result_entry_ok((#[trigger] types@[k]).1, intent.operations@[i2]) by {
                            if k < types@.len() - 1 {
                                assert(types@[k] == before[k]);
                                assert(exists|i2: int| 0 <= i2 < intent.operations@.len()
                                    && op_result_entry_ok((#[trigger] types@[k]).1, intent.operations@[i2]));
                            } else {
                                assert(ops@[i as int] == intent.operations@[i as int]);
                                assert(op_result_entry_ok(types@[k].1, intent.operations@[i as int]));
                            }
                        }
                        assert(appended_justified(types@, orig.len() as int, intent.operations@));
                    }
                    j += 1;
                }
            }
            i += 1;
        }
    }
}

/// Growing the type table preserves recorded result entries.
pub proof fn lemma_entry_preserved(before: Seq<(String, InferredType)>, after: Seq<(String, InferredType)>)
    requires
        after.len() >= before.len(),
        forall|k: int| 0 <= k < before.len() ==> after[k] == before[k],
    ensures
        forall|name: Seq<char>, op: Operation| has_entry_for(before, name, op)
            ==> has_entry_for(after, name, op),
{
    assert forall|name: Seq<char>, op: Operation| has_entry_for(before, name, op)
        implies has_entry_for(after, name, op) by {
        let k0 = choose|k: int| 0 <= k < before.len() && (#[trigger] before[k]).0@ == name
            && op_result_entry_ok(before[k].1, op);
        assert(after[k0].0@ == name && op_result_entry_ok(after[k0].1, op));
    }
}

/// A nullability constraint derived from a null-pointer check.
pub open spec fn is_nullability_tc(c: TypeConstraint) -> bool {
    &&& c.constraint_type == TypeConstraintType::NullabilityConstraint
    &&& c.severity == ConstraintSeverity::Error
    &&& c.nullable == Some(false)
}

/// A size constraint derived from a bounds check.
pub open spec fn is_size_tc(c: TypeConstraint) -> bool {
    &&& c.constraint_type == TypeConstraintType::SizeConstraint
    &&& c.severity == ConstraintSeverity::Error
}

/// An alignment requirement on a type wider than byte-aligned.
pub open spec fn is_alignment_tc(c: TypeConstraint) -> bool {
    &&& c.constraint_type == TypeConstraintType::AlignmentConstraint
    &&& c.severity == ConstraintSeverity::Warning
    &&& c.required_alignment matches Some(a) && a > 1
}

impl TypeInferencer {
    /// Map the semantic safety constraints onto type constraints:
    /// null-pointer checks to non-nullability, bounds checks to size
    /// constraints; other kinds carry no type constraint.
    fn apply_semantic_constraints(
        &self,
        semantic_model: &SemanticModel,
        constraints: &mut Vec<TypeConstraint>,
    )
        ensures
            final(constraints)@.len() >= old(constraints)@.len(),
            final(constraints)@.subrange(0, old(constraints)@.len() as int) == old(constraints)@,
            forall|k: int| old(constraints)@.len() <= k < final(constraints)@.len()
                ==> is_nullability_tc(#[trigger] final(constraints)@[k])
                    || is_size_tc(final(constraints)@[k]),
            forall|i: int| 0 <= i < semantic_model.safety_constraints@.len()
                && ((#[trigger] semantic_model.safety_constraints@[i]).constraint_type
                    == SafetyConstraintType::NullPointerCheck
                    || semantic_model.safety_constraints@[i].constraint_type
                        == SafetyConstraintType::BoundsCheck)
                ==> final(constraints)@.len() > old(constraints)@.len(),
    {
        proof {
            assert(constraints@.subrange(0, constraints@.len() as int) =~= constraints@);
        }
        let ghost orig = constraints@;
        let scs = &semantic_model.safety_constraints;
        let mut i: usize = 0;
        while i < scs.len()
            invariant
                i <= scs@.len(),
                scs@ == semantic_model.safety_constraints@,
                constraints@.len() >= orig.len(),
                constraints@.subrange(0, orig.len() as int) == orig,
                forall|k: int| orig.len() <= k < constraints@.len()
                    ==> is_nullability_tc(#[trigger] constraints@[k])
                        || is_size_tc(constraints@[k]),
                forall|i2: int| 0 <= i2 < i
                    && ((#[trigger] scs@[i2]).constraint_type == SafetyConstraintType::NullPointerCheck
                        || scs@[i2].constraint_type == SafetyConstraintType::BoundsCheck)
                    ==> constraints@.len() > orig.len(),
            decreases scs@.len() - i,
        {
            let ghost before = constraints@;
            let sc = &scs[i];
            match sc.constraint_type {
                SafetyConstraintType::NullPointerCheck => {
                    constraints.push(TypeConstraint {
                        constraint_type: TypeConstraintType::NullabilityConstraint,
                        affected_types: crate::intent_extractor::copy_strings(&sc.affected_variables),
                        description: sc.description.clone(),
                        severity: ConstraintSeverity::Error,
                        required_alignment: None,
                        nullable: Some(false),
                    });
                },
                SafetyConstraintType::BoundsCheck => {
                    constraints.push(TypeConstraint {
                        constraint_type: TypeConstraintType::SizeConstraint,
                        affected_types: crate::intent_extractor::copy_strings(&sc.affected_variables),
                        description: sc.description.clone(),
                        severity: ConstraintSeverity::Error,
                        required_alignment: None,
                        nullable: None,
                    });
                },
                _ => {},
            }
            proof {
                assert(constraints@.subrange(0, orig.len() as int)
                    =~= before.subrange(0, orig.len() as int));
            }
            i += 1;
        }
    }

    /// One alignment constraint per type wider than byte alignment.
    fn generate_type_constraints(
        &self,
        types: &Vec<(String, InferredType)>,
        constraints: &mut Vec<TypeConstraint>,
    )
        ensures
            final(constraints)@.len() >= old(constraints)@.len(),
            final(constraints)@.subrange(0, old(constraints)@.len() as int) == old(constraints)@,
            forall|k: int| old(constraints)@.len() <= k < final(constraints)@.len()
                ==> is_alignment_tc(#[trigger] final(constraints)@[k]),
            forall|i: int| 0 <= i < types@.len() && (#[trigger] types@[i]).1.alignment > 1
                ==> final(constraints)@.len() > old(constraints)@.len(),
    {
        proof {
            assert(constraints@.subrange(0, constraints@.len() as int) =~= constraints@);
        }
        let ghost orig = constraints@;
        let mut i: usize = 0;
        while i < types.len()
            invariant
                i <= types@.len(),
                constraints@.len() >= orig.len(),
                constraints@.subrange(0, orig.len() as int) == orig,
                forall|k: int| orig.len() <= k < constraints@.len()
                    ==> is_alignment_tc(#[trigger] constraints@[k]),
                forall|i2: int| 0 <= i2 < i && (#[trigger] types@[i2]).1.alignment > 1
                    ==> constraints@.len() > orig.len(),
            decreases types@.len() - i,
        {
            let ghost before = constraints@;
            let (name, t) = &types[i];
            if t.alignment > 1 {
                let mut affected: Vec<String> = Vec::new();
                affected.push(name.clone());
                let mut desc = String::from_str("Type ");
                desc.append(name.as_str());
                desc.append(" requires wider than byte alignment");
                constraints.push(TypeConstraint {
                    constraint_type: TypeConstraintType::AlignmentConstraint,
                    affected_types: affected,
                    description: desc,
                    severity: ConstraintSeverity::Warning,
                    required_alignment: Some(t.alignment),
                    nullable: None,
                });
            }
            proof {
                assert(constraints@.subrange(0, orig.len() as int)
                    =~= before.subrange(0, orig.len() as int));
            }
            i += 1;
        }
    }

    /// Round an offset up to the next multiple of the alignment; a zero
    /// alignment is treated as byte alignment, and an offset whose rounded
    /// value would not fit the machine word is left in place.
    fn round_up(offset: usize, align: usize) -> (r: usize)
        ensures
            r == sat_round_up(offset as int, align as int),
            r >= offset,
    {
        if align <= 1 {
            proof {
                if align == 1 {
                    assert(spec_round_up(offset as int, 1) == offset) by (nonlinear_arith);
                }
            }
            return offset;
        }
        let rem = offset % align;
        if rem == 0 {
            proof {
                assert(spec_round_up(offset as int, align as int) == offset) by (nonlinear_arith)
                    requires
                        align >= 2,
                        offset as int % (align as int) == 0,
                        offset >= 0,
                ;
            }
            return offset;
        }
        proof {
            assert(spec_round_up(offset as int, align as int)
                == offset as int - rem as int + align as int) by (nonlinear_arith)
                requires
                    align >= 2,
                    rem == offset as int % (align as int),
                    rem != 0,
                    offset >= 0,
            ;
            assert(rem <= offset) by (nonlinear_arith)
                requires
                    align >= 2,
                    rem == offset as int % (align as int),
                    offset >= 0,
            ;
        }
        if offset - rem > usize::MAX - align {
            return offset;
        }
        offset - rem + align
    }

    /// Plan the stack and static layout: each function- or block-lifetime
    /// type gets the next alignment-rounded stack offset, each
    /// static-lifetime type the next static offset, and the total is the
    /// frame size plus the static size; all arithmetic saturates at the
    /// machine word.
    pub fn plan_memory_layout(&self, types: &Vec<(String, InferredType)>) -> (r: MemoryLayoutPlan)
        ensures
            r.stack_layout.variables@.len() == count_stack(types@, types@.len() as int),
            forall|i: int| 0 <= i < types@.len() && on_stack_lifetime((#[trigger] types@[i]).1)
                ==> {
                    let j = count_stack(types@, i);
                    let v = r.stack_layout.variables@[j];
                    &&& 0 <= j < r.stack_layout.variables@.len()
                    &&& v.name@ == types@[i].0@
                    &&& v.size == types@[i].1.size_bytes
                    &&& v.alignment == types@[i].1.alignment
                    &&& v.offset == sat_round_up(stack_end(types@, i), types@[i].1.alignment as int)
                },
            r.stack_layout.frame_size == stack_end(types@, types@.len() as int),
            r.static_layout.global_variables@.len() == count_static(types@, types@.len() as int),
            forall|i: int| 0 <= i < types@.len() && is_static_lifetime((#[trigger] types@[i]).1)
                ==> {
                    let j = count_static(types@, i);
                    let v = r.static_layout.global_variables@[j];
                    &&& 0 <= j < r.static_layout.global_variables@.len()
                    &&& v.name@ == types@[i].0@
                    &&& v.size == types@[i].1.size_bytes
                    &&& v.is_initialized
                    &&& v.offset == sat_round_up(static_end(types@, i), types@[i].1.alignment as int)
                },
            r.static_layout.total_size == static_end(types@, types@.len() as int),
            r.total_size == sat_add_int(
                r.stack_layout.frame_size as int,
                r.static_layout.total_size as int,
            ),
            r.heap_layout.estimated_allocations == 0,
            r.stack_layout.alignment == 8,
    {
        let mut stack_offset: usize = 0;
        let mut static_offset: usize = 0;
        let mut stack_vars: Vec<StackVariable> = Vec::new();
        let mut static_vars: Vec<StaticVariable> = Vec::new();
        let mut i: usize = 0;
        while i < types.len()
            invariant
                i <= types@.len(),
                stack_offset == stack_end(types@, i as int),
                static_offset == static_end(types@, i as int),
                stack_vars@.len() == count_stack(types@, i as int),
                static_vars@.len() == count_static(types@, i as int),
                forall|i2: int| 0 <= i2 < i && on_stack_lifetime((#[trigger] types@[i2]).1)
                    ==> {
                        let j = count_stack(types@, i2);
                        let v = stack_vars@[j];
                        &&& 0 <= j < stack_vars@.len()
                        &&& v.name@ == types@[i2].0@
                        &&& v.size == types@[i2].1.size_bytes
                        &&& v.alignment == types@[i2].1.alignment
                        &&& v.offset == sat_round_up(stack_end(types@, i2), types@[i2].1.alignment as int)
                    },
                forall|i2: int| 0 <= i2 < i && is_static_lifetime((#[trigger] types@[i2]).1)
                    ==> {
                        let j = count_static(types@, i2);
                        let v = static_vars@[j];
                        &&& 0 <= j < static_vars@.len()
                        &&& v.name@ == types@[i2].0@
                        &&& v.size == types@[i2].1.size_bytes
                        &&& v.is_initialized
                        &&& v.offset == sat_round_up(static_end(types@, i2), types@[i2].1.alignment as int)
                    },
            decreases types@.len() - i,
        {
            let ghost old_stack = stack_vars@;
            let ghost old_static = static_vars@;
            let (name, t) = &types[i];
            let on_stack = match t.lifetime {
                Lifetime::Function | Lifetime::Block => true,
                _ => false,
            };
            proof {
                assert(on_stack == on_stack_lifetime(types@[i as int].1));
                lemma_layout_ends_bounded(types@, i as int);
            }
            if on_stack {
                let aligned = Self::round_up(stack_offset, t.alignment);
                stack_vars.push(StackVariable {
                    name: name.clone(),
                    offset: aligned,
                    size: t.size_bytes,
                    alignment: t.alignment,
                });
                if aligned > usize::MAX - t.size_bytes {
                    stack_offset = usize::MAX;
                } else {
                    stack_offset = aligned + t.size_bytes;
                }
            } else if match t.lifetime {
                Lifetime::Static => true,
                _ => false,
            } {
                let aligned = Self::round_up(static_offset, t.alignment);
                static_vars.push(StaticVariable {
                    name: name.clone(),
                    offset: aligned,
                    size: t.size_bytes,
                    is_initialized: true,
                });
                if aligned > usize::MAX - t.size_bytes {
                    static_offset = usize::MAX;
                } else {
                    static_offset = aligned + t.size_bytes;
                }
            }
            proof {
                assert forall|i2: int| 0 <= i2 < i + 1 && on_stack_lifetime((#[trigger] types@[i2]).1)
                    implies {
                        let j = count_stack(types@, i2);
                        let v = stack_vars@[j];
                        &&& 0 <= j < stack_vars@.len()
                        &&& v.name@ == types@[i2].0@
                        &&& v.size == types@[i2].1.size_bytes
                        &&& v.alignment == types@[i2].1.alignment
                        &&& v.offset == sat_round_up(stack_end(types@, i2), types@[i2].1.alignment as int)
                    } by {
                    let j = count_stack(types@, i2);
                    lemma_count_layout_mono(types@, i2, i as int);
                    if i2 < i {
                        assert(count_stack(types@, i2 + 1) == j + 1);
                        lemma_count_layout_mono(types@, i2 + 1, i as int);
                        assert(stack_vars@[j] == old_stack[j]);
                    } else {
                        assert(stack_vars@[j] == stack_vars@[old_stack.len() as int]);
                    }
                }
                assert forall|i2: int| 0 <= i2 < i + 1 && is_static_lifetime((#[trigger] types@[i2]).1)
                    implies {
                        let j = count_static(types@, i2);
                        let v = static_vars@[j];
                        &&& 0 <= j < static_vars@.len()
                        &&& v.name@ == types@[i2].0@
                        &&& v.size == types@[i2].1.size_bytes
                        &&& v.is_initialized
                        &&& v.offset == sat_round_up(static_end(types@, i2), types@[i2].1.alignment as int)
                    } by {
                    let j = count_static(types@, i2);
                    lemma_count_layout_mono(types@, i2, i as int);
                    if i2 < i {
                        assert(count_static(types@, i2 + 1) == j + 1);
                        lemma_count_layout_mono(types@, i2 + 1, i as int);
                        assert(static_vars@[j] == old_static[j]);
                    } else {
                        assert(static_vars@[j] == static_vars@[old_static.len() as int]);
                    }
                }
            }
            i += 1;
        }
        let total = if stack_offset > usize::MAX - static_offset {
            usize::MAX
        } else {
            stack_offset + static_offset
        };
        MemoryLayoutPlan {
            total_size: total,
            stack_layout: StackLayout {
                frame_size: stack_offset,
                variables: stack_vars,
                spill_slots: 0,
                alignment: 8,
            },
            heap_layout: HeapLayout {
                estimated_allocations: 0,
                allocation_patterns: Vec::new(),
                gc_strategy: GarbageCollectionStrategy::NoCollection,
            },
            static_layout: StaticLayout {
                global_variables: static_vars,
                constants: Vec::new(),
                string_literals: Vec::new(),
                total_size: static_offset,
            },
            alignment_padding: 0,
            memory_pools: Vec::new(),
        }
    }

    /// Compute the pairwise conversion table over all inferred types;
    /// prohibited pairs are left out.
    pub fn detect_type_conversions(&self, types: &Vec<(String, InferredType)>) -> (r: Vec<TypeConversion>)
        ensures
            forall|k: int| 0 <= k < r@.len()
                ==> (#[trigger] r@[k]).cost != ConversionCost::Prohibited,
            forall|i: int, j: int| 0 <= i < types@.len() && 0 <= j < types@.len() && i != j
                && spec_conversion((#[trigger] types@[i]).1.base_type, (#[trigger] types@[j]).1.base_type).2
                    != ConversionCost::Prohibited
                ==> exists|k: int| 0 <= k < r@.len()
                    && (#[trigger] r@[k]).from_type@ == types@[i].0@
                    && r@[k].to_type@ == types@[j].0@
                    && r@[k].conversion_type == spec_conversion(types@[i].1.base_type, types@[j].1.base_type).0
                    && r@[k].is_safe == spec_conversion(types@[i].1.base_type, types@[j].1.base_type).1
                    && r@[k].cost == spec_conversion(types@[i].1.base_type, types@[j].1.base_type).2,
    {
        let mut out: Vec<TypeConversion> = Vec::new();
        let mut i: usize = 0;
        while i < types.len()
            invariant
                i <= types@.len(),
                forall|k: int| 0 <= k < out@.len()
                    ==> (#[trigger] out@[k]).cost != ConversionCost::Prohibited,
                forall|i2: int, j2: int| 0 <= i2 < i && 0 <= j2 < types@.len() && i2 != j2
                    && spec_conversion((#[trigger] types@[i2]).1.base_type, (#[trigger] types@[j2]).1.base_type).2
                        != ConversionCost::Prohibited
                    ==> has_conversion(out@, types@, i2, j2),
            decreases types@.len() - i,
        {
            let mut j: usize = 0;
            while j < types.len()
                invariant
                    i < types@.len(),
                    j <= types@.len(),
                    forall|k: int| 0 <= k < out@.len()
                        ==> (#[trigger] out@[k]).cost != ConversionCost::Prohibited,
                    forall|i2: int, j2: int| 0 <= i2 < i && 0 <= j2 < types@.len() && i2 != j2
                        && spec_conversion((#[trigger] types@[i2]).1.base_type, (#[trigger] types@[j2]).1.base_type).2
                            != ConversionCost::Prohibited
                        ==> has_conversion(out@, types@, i2, j2),
                    forall|j2: int| 0 <= j2 < j && (i as int) != j2
                        && spec_conversion(types@[i as int].1.base_type, (#[trigger] types@[j2]).1.base_type).2
                            != ConversionCost::Prohibited
                        ==> has_conversion(out@, types@, i as int, j2),
                decreases types@.len() - j,
            {
                let ghost before = out@;
                if i != j {
                    let conversion = self.analyze_type_conversion(&types[i].1, &types[j].1);
                    let prohibited = match conversion.cost {
                        ConversionCost::Prohibited => true,
                        _ => false,
                    };
                    if !prohibited {
                        out.push(TypeConversion {
                            from_type: types[i].0.clone(),
                            to_type: types[j].0.clone(),
                            conversion_type: conversion.conversion_type,
                            is_safe: conversion.is_safe,
                            cost: conversion.cost,
                        });
                        proof {
                            let last = out@.len() - 1;
                            assert(out@[last].from_type@ == types@[i as int].0@);
                            assert(out@[last].to_type@ == types@[j as int].0@);
                            assert(out@[last].conversion_type
                                == spec_conversion(types@[i as int].1.base_type, types@[j as int].1.base_type).0);
                            assert(has_conversion(out@, types@, i as int, j as int));
                            lemma_conversion_preserved(before, out@, types@);
                        }
                    }
                }
                j += 1;
            }
            i += 1;
        }
        out
    }

    /// Infer the full type model from the intent and the semantic model.
    pub fn infer_types(&self, intent: &ProgramIntent, semantic_model: &SemanticModel) -> (r: TypeModel)
        ensures
            r.types@.len() >= intent.data_structures@.len(),
            forall|k: int| 0 <= k < intent.data_structures@.len()
                ==> (#[trigger] r.types@[k]).0@ == intent.data_structures@[k].name@
                    && converted_ok(r.types@[k].1, intent.data_structures@[k].data_type),
            appended_justified(r.types@, intent.data_structures@.len() as int, intent.operations@),
            forall|i: int, j: int| 0 <= i < intent.operations@.len()
                && op_types_outputs(intent.operations@[i])
                && 0 <= j < intent.operations@[i].outputs@.len()
                ==> has_entry_for(r.types@, (#[trigger] intent.operations@[i].outputs@[j])@, intent.operations@[i]),
            forall|k: int| 0 <= k < r.type_conversions@.len()
                ==> (#[trigger] r.type_conversions@[k]).cost != ConversionCost::Prohibited,
            forall|i: int, j: int| 0 <= i < r.types@.len() && 0 <= j < r.types@.len() && i != j
                && spec_conversion((#[trigger] r.types@[i]).1.base_type, (#[trigger] r.types@[j]).1.base_type).2
                    != ConversionCost::Prohibited
                ==> has_conversion(r.type_conversions@, r.types@, i, j),
            r.generic_instantiations@.len() == 0,
    {
        let mut types: Vec<(String, InferredType)> = Vec::new();
        self.infer_from_data_structures(intent, &mut types);
        let ghost after_ds = types@;
        self.infer_from_operations(intent, &mut types);
        proof {
            assert(types@.subrange(0, after_ds.len() as int) == after_ds);
            assert forall|k: int| 0 <= k < intent.data_structures@.len()
                implies (#[trigger] types@[k]).0@ == intent.data_structures@[k].name@
                    && converted_ok(types@[k].1, intent.data_structures@[k].data_type) by {
                assert(types@[k] == types@.subrange(0, after_ds.len() as int)[k]);
            }
        }
        let mut type_constraints: Vec<TypeConstraint> = Vec::new();
        self.apply_semantic_constraints(semantic_model, &mut type_constraints);
        self.generate_type_constraints(&types, &mut type_constraints);
        let memory_layout = self.plan_memory_layout(&types);
        let type_conversions = self.detect_type_conversions(&types);
        TypeModel {
            types,
            type_constraints,
            memory_layout,
            type_conversions,
            generic_instantiations: Vec::new(),
        }
    }

    /// The prompt for the type-inference oracle call; the reply only adds
    /// free-text insight and is not folded back into the model.
    pub fn type_prompt(&self, intent: &ProgramIntent) -> (r: String)
        ensures
            r@ == "Review the inferred types for more precise bounds, lifetime analysis, and memory optimization opportunities. The type table follows.\n"@,
    {
        String::from_str(
            "Review the inferred types for more precise bounds, lifetime analysis, and memory optimization opportunities. The type table follows.\n",
        )
    }
}

/// A recorded conversion entry for the ordered pair (i, j).
pub open spec fn has_conversion(out: Seq<TypeConversion>, types: Seq<(String, InferredType)>, i: int, j: int) -> bool {
    exists|k: int| 0 <= k < out.len()
        && (#[trigger] out[k]).from_type@ == types[i].0@
        && out[k].to_type@ == types[j].0@
        && out[k].conversion_type == spec_conversion(types[i].1.base_type, types[j].1.base_type).0
        && out[k].is_safe == spec_conversion(types[i].1.base_type, types[j].1.base_type).1
        && out[k].cost == spec_conversion(types[i].1.base_type, types[j].1.base_type).2
}

/// Growing the table preserves recorded conversions.
pub proof fn lemma_conversion_preserved(
    before: Seq<TypeConversion>,
    after: Seq<TypeConversion>,
    types: Seq<(String, InferredType)>,
)
    requires
        after.len() >= before.len(),
        forall|k: int| 0 <= k < before.len() ==> after[k] == before[k],
    ensures
        forall|i: int, j: int| has_conversion(before, types, i, j)
            ==> has_conversion(after, types, i, j),
{
    assert forall|i: int, j: int| has_conversion(before, types, i, j)
        implies has_conversion(after, types, i, j) by {
        let k0 = choose|k: int| 0 <= k < before.len()
            && (#[trigger] before[k]).from_type@ == types[i].0@
            && before[k].to_type@ == types[j].0@
            && before[k].conversion_type == spec_conversion(types[i].1.base_type, types[j].1.base_type).0
            && before[k].is_safe == spec_conversion(types[i].1.base_type, types[j].1.base_type).1
            && before[k].cost == spec_conversion(types[i].1.base_type, types[j].1.base_type).2;
        assert(after[k0] == before[k0]);
    }
}

} // verus!
