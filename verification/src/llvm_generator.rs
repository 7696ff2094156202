//! Intermediate-representation generation: converts the analyzed flow
//! model into a module of typed functions, blocks, and instructions ready
//! for machine-code emission, and emits a minimal executable image.

use vstd::prelude::*;
use vstd::string::StringExecFns;
use crate::intent_extractor::ProgramIntent;
use crate::semantic_analyzer::SemanticModel;
use crate::type_inferencer::{TypeModel, InferredType, BaseType};
use crate::flow_analyzer::{FlowModel, ControlBlock, ControlBlockType, Instruction, Opcode, Operand,
    OperandType};

verus! {

#[derive(Debug, Clone, Copy, PartialEq, Eq, Structural)]
pub enum LLVMOpcode {
    Add,
    FAdd,
    Sub,
    FSub,
    Mul,
    FMul,
    UDiv,
    SDiv,
    FDiv,
    URem,
    SRem,
    Shl,
    LShr,
    AShr,
    And,
    Or,
    Xor,
    Alloca,
    Load,
    Store,
    GetElementPtr,
    Trunc,
    ZExt,
    SExt,
    PtrToInt,
    IntToPtr,
    BitCast,
    ICmp,
    FCmp,
    Select,
    Phi,
    Call,
    Invoke,
}

#[derive(Debug, Clone, Copy, PartialEq, Eq, Structural)]
pub enum LLVMOperandType {
    Register,
    Constant,
    GlobalVariable,
    Function,
    BasicBlock,
}

#[derive(Debug)]
pub enum LLVMType {
    Void,
    Integer { bits: u32 },
    FloatingSingle,
    FloatingDouble,
    Pointer { pointee_type: Box<LLVMType> },
    Array { element_type: Box<LLVMType>, length: u64 },
    Struct { fields: Vec<LLVMType>, packed: bool },
    Function { return_type: Box<LLVMType>, param_types: Vec<LLVMType> },
    Vector { element_type: Box<LLVMType>, length: u32 },
    Label,
    Metadata,
}

#[derive(Debug)]
pub struct LLVMOperand {
    pub operand_type: LLVMOperandType,
    pub value: String,
    pub value_type: LLVMType,
}

#[derive(Debug)]
pub struct LLVMInstruction {
    pub result: Option<String>,
    pub opcode: LLVMOpcode,
    pub operands: Vec<LLVMOperand>,
    pub instruction_type: LLVMType,
    pub metadata: Vec<String>,
}

#[derive(Debug)]
pub enum LLVMTerminator {
    Ret { value: Option<LLVMOperand> },
    Br { dest: usize },
    CondBr { condition: LLVMOperand, true_dest: usize, false_dest: usize },
    Unreachable,
}

#[derive(Debug)]
pub struct LLVMBasicBlock {
    pub label: usize,
    pub instructions: Vec<LLVMInstruction>,
    pub terminator: LLVMTerminator,
}

#[derive(Debug, Clone, Copy, PartialEq, Eq, Structural)]
pub enum LLVMLinkage {
    Private,
    Internal,
    External,
    ExternalWeak,
    Common,
    Appending,
}

#[derive(Debug)]
pub struct LLVMParameter {
    pub name: String,
    pub param_type: LLVMType,
    pub attributes: Vec<String>,
}

#[derive(Debug)]
pub struct LLVMFunction {
    pub name: String,
    pub return_type: LLVMType,
    pub parameters: Vec<LLVMParameter>,
    pub basic_blocks: Vec<LLVMBasicBlock>,
    pub attributes: Vec<String>,
    pub linkage: LLVMLinkage,
}

#[derive(Debug)]
pub enum LLVMConstant {
    Integer { value: i64, bits: u32 },
    Text { value: String },
    Null,
    Undef,
}

#[derive(Debug)]
pub struct LLVMGlobalVariable {
    pub name: String,
    pub global_type: LLVMType,
    pub linkage: LLVMLinkage,
    pub initializer: Option<LLVMConstant>,
    pub is_constant: bool,
    pub alignment: Option<u32>,
}

#[derive(Debug)]
pub struct LLVMModuleMetadata {
    pub source_filename: String,
    pub target_triple: String,
    pub data_layout: String,
    pub debug_info: bool,
    pub optimization_level: u32,
}

/// A generated module.
#[derive(Debug)]
pub struct LLVMModule {
    pub name: String,
    pub functions: Vec<LLVMFunction>,
    pub global_variables: Vec<LLVMGlobalVariable>,
    pub metadata: LLVMModuleMetadata,
    pub target_triple: String,
}

impl LLVMModule {
    /// The number of functions in the module.
    pub fn function_count(&self) -> (r: usize)
        ensures
            r == self.functions@.len(),
    {
        self.functions.len()
    }
}

/// The opcode each flow opcode maps onto.
pub open spec fn spec_llvm_opcode(o: Opcode) -> LLVMOpcode {
    match o {
        Opcode::Add => LLVMOpcode::Add,
        Opcode::Sub => LLVMOpcode::Sub,
        Opcode::Mul => LLVMOpcode::Mul,
        Opcode::Div => LLVMOpcode::SDiv,
        Opcode::Load => LLVMOpcode::Load,
        Opcode::Store => LLVMOpcode::Store,
        Opcode::Call => LLVMOpcode::Call,
        Opcode::Alloca => LLVMOpcode::Alloca,
        _ => LLVMOpcode::Add,
    }
}

pub open spec fn spec_llvm_operand_type(t: OperandType) -> LLVMOperandType {
    match t {
        OperandType::Register => LLVMOperandType::Register,
        OperandType::Immediate => LLVMOperandType::Constant,
        OperandType::Memory => LLVMOperandType::GlobalVariable,
        OperandType::Label => LLVMOperandType::BasicBlock,
    }
}

/// Intermediate-representation generator.
pub struct LLVMGenerator {
    pub register_counter: u32,
    pub label_counter: u32,
}

impl LLVMGenerator {
    pub fn new() -> (r: LLVMGenerator)
        ensures
            r.register_counter == 0,
            r.label_counter == 0,
    {
        LLVMGenerator { register_counter: 0, label_counter: 0 }
    }

    /// The generator-level function count; the real count lives on the
    /// module, and this generator-side reading is fixed at zero.
    pub fn function_count(&self) -> (r: usize)
        ensures
            r == 0,
    {
        0
    }

    /// The representation type of an inferred type: integers and floats by
    /// width, booleans one bit, pointers by their target, anything else a
    /// 32-bit integer.
    pub fn convert_inferred_type_to_llvm(&self, inferred_type: &InferredType) -> (r: LLVMType)
        decreases *inferred_type,
    {
        match &inferred_type.base_type {
            BaseType::Integer { bits, .. } => LLVMType::Integer { bits: *bits as u32 },
            BaseType::Float { precision } => match precision {
                crate::type_inferencer::FloatPrecision::Single => LLVMType::FloatingSingle,
                _ => LLVMType::FloatingDouble,
            },
            BaseType::Boolean => LLVMType::Integer { bits: 1 },
            BaseType::Pointer { target_type, .. } => {
                proof {
                    assert(decreases_to!(*inferred_type => inferred_type.base_type));
                }
                let pointee = self.convert_inferred_type_to_llvm(target_type);
                LLVMType::Pointer { pointee_type: Box::new(pointee) }
            },
            BaseType::Void => LLVMType::Void,
            _ => LLVMType::Integer { bits: 32 },
        }
    }

    /// A named representation type: the common primitives by name,
    /// anything else a 32-bit integer.
    pub fn convert_to_llvm_type(&self, label: &str) -> (r: LLVMType)
    {
        proof {
            reveal_strlit("i32");
            reveal_strlit("i64");
            reveal_strlit("bool");
            reveal_strlit("ptr");
        }
        let name = String::from_str(label);
        if name == String::from_str("i32") {
            LLVMType::Integer { bits: 32 }
        } else if name == String::from_str("i64") {
            LLVMType::Integer { bits: 64 }
        } else if name == String::from_str("bool") {
            LLVMType::Integer { bits: 1 }
        } else if name == String::from_str("ptr") {
            LLVMType::Pointer { pointee_type: Box::new(LLVMType::Integer { bits: 8 }) }
        } else {
            LLVMType::Integer { bits: 32 }
        }
    }

    /// Convert one flow operand.
    pub fn convert_flow_operand_to_llvm(&self, flow_operand: &Operand) -> (r: LLVMOperand)
        ensures
            r.operand_type == spec_llvm_operand_type(flow_operand.operand_type),
            r.value@ == flow_operand.value@,
    {
        let operand_type = match flow_operand.operand_type {
            OperandType::Register => LLVMOperandType::Register,
            OperandType::Immediate => LLVMOperandType::Constant,
            OperandType::Memory => LLVMOperandType::GlobalVariable,
            OperandType::Label => LLVMOperandType::BasicBlock,
        };
        let value_type = self.convert_to_llvm_type(flow_operand.data_type.as_str());
        LLVMOperand {
            operand_type,
            value: flow_operand.value.clone(),
            value_type,
        }
    }

    /// Convert one flow instruction, numbering any produced register.
    pub fn convert_flow_instruction_to_llvm(
        &self,
        flow_instruction: &Instruction,
        register_counter: &mut u32,
    ) -> (r: LLVMInstruction)
        ensures
            r.opcode == spec_llvm_opcode(flow_instruction.opcode),
            r.operands@.len() == flow_instruction.operands@.len(),
            forall|k: int| 0 <= k < r.operands@.len()
                ==> (#[trigger] r.operands@[k]).operand_type
                    == spec_llvm_operand_type(flow_instruction.operands@[k].operand_type)
                    && r.operands@[k].value@ == flow_instruction.operands@[k].value@,
            r.result is Some <==> flow_instruction.result is Some,
            flow_instruction.result is None ==> *final(register_counter) == *old(register_counter),
            flow_instruction.result is Some && *old(register_counter) < u32::MAX
                ==> *final(register_counter) == *old(register_counter) + 1,
    {
        let opcode = match flow_instruction.opcode {
            Opcode::Add => LLVMOpcode::Add,
            Opcode::Sub => LLVMOpcode::Sub,
            Opcode::Mul => LLVMOpcode::Mul,
            Opcode::Div => LLVMOpcode::SDiv,
            Opcode::Load => LLVMOpcode::Load,
            Opcode::Store => LLVMOpcode::Store,
            Opcode::Call => LLVMOpcode::Call,
            Opcode::Alloca => LLVMOpcode::Alloca,
            _ => LLVMOpcode::Add,
        };
        let mut operands: Vec<LLVMOperand> = Vec::new();
        let mut k: usize = 0;
        while k < flow_instruction.operands.len()
            invariant
                k <= flow_instruction.operands@.len(),
                operands@.len() == k,
                forall|k2: int| 0 <= k2 < k
                    ==> (#[trigger] operands@[k2]).operand_type
                        == spec_llvm_operand_type(flow_instruction.operands@[k2].operand_type)
                        && operands@[k2].value@ == flow_instruction.operands@[k2].value@,
            decreases flow_instruction.operands@.len() - k,
        {
            operands.push(self.convert_flow_operand_to_llvm(&flow_instruction.operands[k]));
            k += 1;
        }
        let result = match &flow_instruction.result {
            Some(_) => {
                if *register_counter < u32::MAX {
                    *register_counter += 1;
                } else {
                    *register_counter = u32::MAX;
                }
                Some(String::from_str("register"))
            },
            None => None,
        };
        LLVMInstruction {
            result,
            opcode,
            operands,
            instruction_type: LLVMType::Integer { bits: 32 },
            metadata: Vec::new(),
        }
    }

    /// The terminator of a block: exits return zero, conditionals branch
    /// two ways when they can, and everything else falls through to its
    /// first successor or returns.
    pub fn generate_terminator_for_block(&self, control_block: &ControlBlock) -> (r: LLVMTerminator)
        ensures
            control_block.block_type == ControlBlockType::Exit ==> r is Ret,
            control_block.block_type != ControlBlockType::Exit
                && control_block.block_type != ControlBlockType::Conditional
                && control_block.successors@.len() > 0
                ==> (r matches LLVMTerminator::Br { dest }
                    && dest == control_block.successors@[0]),
            control_block.block_type != ControlBlockType::Exit
                && control_block.successors@.len() == 0 ==> r is Ret,
    {
        match control_block.block_type {
            ControlBlockType::Exit => LLVMTerminator::Ret {
                value: Some(LLVMOperand {
                    operand_type: LLVMOperandType::Constant,
                    value: String::from_str("0"),
                    value_type: LLVMType::Integer { bits: 32 },
                }),
            },
            ControlBlockType::Conditional => {
                if control_block.successors.len() >= 2 {
                    LLVMTerminator::CondBr {
                        condition: LLVMOperand {
                            operand_type: LLVMOperandType::Register,
                            value: String::from_str("condition"),
                            value_type: LLVMType::Integer { bits: 1 },
                        },
                        true_dest: control_block.successors[0],
                        false_dest: control_block.successors[1],
                    }
                } else if control_block.successors.len() == 1 {
                    LLVMTerminator::Br { dest: control_block.successors[0] }
                } else {
                    LLVMTerminator::Ret { value: None }
                }
            },
            _ => {
                if control_block.successors.len() > 0 {
                    LLVMTerminator::Br { dest: control_block.successors[0] }
                } else {
                    LLVMTerminator::Ret { value: None }
                }
            },
        }
    }

    /// The fixed helper functions: a reader that returns one integer, and
    /// a writer that takes one.
    fn generate_helper_functions(&self) -> (r: Vec<LLVMFunction>)
        ensures
            r@.len() == 2,
            r@[0].name@ == "input_function"@,
            r@[0].linkage == LLVMLinkage::Internal,
            r@[1].name@ == "output_function"@,
            r@[1].linkage == LLVMLinkage::Internal,
            r@[1].parameters@.len() == 1,
    {
        let mut helpers: Vec<LLVMFunction> = Vec::new();
        let mut read_blocks: Vec<LLVMBasicBlock> = Vec::new();
        let mut read_ops: Vec<LLVMOperand> = Vec::new();
        read_ops.push(LLVMOperand {
            operand_type: LLVMOperandType::Function,
            value: String::from_str("scanf"),
            value_type: LLVMType::Function {
                return_type: Box::new(LLVMType::Integer { bits: 32 }),
                param_types: Vec::new(),
            },
        });
        let mut read_instrs: Vec<LLVMInstruction> = Vec::new();
        read_instrs.push(LLVMInstruction {
            result: Some(String::from_str("value")),
            opcode: LLVMOpcode::Call,
            operands: read_ops,
            instruction_type: LLVMType::Integer { bits: 32 },
            metadata: Vec::new(),
        });
        read_blocks.push(LLVMBasicBlock {
            label: 0,
            instructions: read_instrs,
            terminator: LLVMTerminator::Ret {
                value: Some(LLVMOperand {
                    operand_type: LLVMOperandType::Register,
                    value: String::from_str("value"),
                    value_type: LLVMType::Integer { bits: 32 },
                }),
            },
        });
        helpers.push(LLVMFunction {
            name: String::from_str("input_function"),
            return_type: LLVMType::Integer { bits: 32 },
            parameters: Vec::new(),
            basic_blocks: read_blocks,
            attributes: Vec::new(),
            linkage: LLVMLinkage::Internal,
        });
        let mut write_blocks: Vec<LLVMBasicBlock> = Vec::new();
        let mut write_ops: Vec<LLVMOperand> = Vec::new();
        write_ops.push(LLVMOperand {
            operand_type: LLVMOperandType::Function,
            value: String::from_str("printf"),
            value_type: LLVMType::Function {
                return_type: Box::new(LLVMType::Integer { bits: 32 }),
                param_types: Vec::new(),
            },
        });
        write_ops.push(LLVMOperand {
            operand_type: LLVMOperandType::Register,
            value: String::from_str("value"),
            value_type: LLVMType::Integer { bits: 32 },
        });
        let mut write_instrs: Vec<LLVMInstruction> = Vec::new();
        write_instrs.push(LLVMInstruction {
            result: None,
            opcode: LLVMOpcode::Call,
            operands: write_ops,
            instruction_type: LLVMType::Void,
            metadata: Vec::new(),
        });
        write_blocks.push(LLVMBasicBlock {
            label: 0,
            instructions: write_instrs,
            terminator: LLVMTerminator::Ret { value: None },
        });
        let mut write_params: Vec<LLVMParameter> = Vec::new();
        write_params.push(LLVMParameter {
            name: String::from_str("value"),
            param_type: LLVMType::Integer { bits: 32 },
            attributes: Vec::new(),
        });
        helpers.push(LLVMFunction {
            name: String::from_str("output_function"),
            return_type: LLVMType::Void,
            parameters: write_params,
            basic_blocks: write_blocks,
            attributes: Vec::new(),
            linkage: LLVMLinkage::Internal,
        });
        helpers
    }

    /// One zero-initialized global per globally scoped variable.
    fn generate_global_variables(&self, semantic_model: &SemanticModel) -> (r: Vec<LLVMGlobalVariable>)
        ensures
            r@.len() <= semantic_model.variables@.len(),
            forall|k: int| 0 <= k < r@.len()
                ==> (#[trigger] r@[k]).linkage == LLVMLinkage::Internal,
    {
        let mut globals: Vec<LLVMGlobalVariable> = Vec::new();
        let vars = &semantic_model.variables;
        let mut i: usize = 0;
        while i < vars.len()
            invariant
                i <= vars@.len(),
                globals@.len() <= i,
                forall|k: int| 0 <= k < globals@.len()
                    ==> (#[trigger] globals@[k]).linkage == LLVMLinkage::Internal,
            decreases vars@.len() - i,
        {
            let v = &vars[i];
            let is_global = match v.scope {
                crate::intent_extractor::Scope::Global => true,
                _ => false,
            };
            if is_global {
                globals.push(LLVMGlobalVariable {
                    name: v.name.clone(),
                    global_type: LLVMType::Integer { bits: 32 },
                    linkage: LLVMLinkage::Internal,
                    initializer: Some(LLVMConstant::Integer { value: 0, bits: 32 }),
                    is_constant: !v.is_mutable,
                    alignment: None,
                });
            }
            i += 1;
        }
        globals
    }

    /// Generate the module: one main function whose blocks mirror the flow
    /// model's block arena, followed by the fixed reader and writer
    /// helpers, plus one global per globally scoped variable.
    pub fn generate_module(
        &self,
        intent: &ProgramIntent,
        semantic_model: &SemanticModel,
        type_model: &TypeModel,
        flow_model: &FlowModel,
    ) -> (r: LLVMModule)
        ensures
            r.functions@.len() == 3,
            r.functions@[0].name@ == "main"@,
            r.functions@[0].basic_blocks@.len() == flow_model.control_blocks@.len(),
            r.functions@[1].name@ == "input_function"@,
            r.functions@[2].name@ == "output_function"@,
    {
        let mut register_counter: u32 = 0;
        let mut basic_blocks: Vec<LLVMBasicBlock> = Vec::new();
        let mut b: usize = 0;
        while b < flow_model.control_blocks.len()
            invariant
                b <= flow_model.control_blocks@.len(),
                basic_blocks@.len() == b,
            decreases flow_model.control_blocks@.len() - b,
        {
            let control_block = &flow_model.control_blocks[b];
            let mut instructions: Vec<LLVMInstruction> = Vec::new();
            let mut t: usize = 0;
            while t < control_block.instructions.len()
                decreases control_block.instructions@.len() - t,
            {
                let ins = self.convert_flow_instruction_to_llvm(
                    &control_block.instructions[t],
                    &mut register_counter,
                );
                instructions.push(ins);
                t += 1;
            }
            let terminator = self.generate_terminator_for_block(control_block);
            basic_blocks.push(LLVMBasicBlock {
                label: control_block.id,
                instructions,
                terminator,
            });
            b += 1;
        }
        let mut functions: Vec<LLVMFunction> = Vec::new();
        functions.push(LLVMFunction {
            name: String::from_str("main"),
            return_type: LLVMType::Integer { bits: 32 },
            parameters: Vec::new(),
            basic_blocks,
            attributes: vec![String::from_str("nounwind")],
            linkage: LLVMLinkage::External,
        });
        let mut helpers = self.generate_helper_functions();
        proof {
            assert(helpers@[0].name@ == "input_function"@);
        }
        functions.append(&mut helpers);
        let global_variables = self.generate_global_variables(semantic_model);
        LLVMModule {
            name: String::from_str("generated"),
            functions,
            global_variables,
            metadata: LLVMModuleMetadata {
                source_filename: String::from_str("natural_language_input"),
                target_triple: String::from_str("x86_64-unknown-linux-gnu"),
                data_layout: String::from_str("e-m:e-i64:64-n8:16:32:64-S128"),
                debug_info: false,
                optimization_level: 2,
            },
            target_triple: String::from_str("x86_64-unknown-linux-gnu"),
        }
    }

    /// A light dead-code sweep over one function: instructions that
    /// produce an unused value and are not calls, loads, or stores are
    /// dropped.
    pub fn optimize_function(&self, function: LLVMFunction) -> (r: LLVMFunction)
        ensures
            r.basic_blocks@.len() == function.basic_blocks@.len(),
            r.name@ == function.name@,
    {
        let LLVMFunction { name, return_type, parameters, basic_blocks, attributes, linkage } =
            function;
        let ghost orig_len = basic_blocks@.len();
        let mut rest = basic_blocks;
        let mut new_blocks: Vec<LLVMBasicBlock> = Vec::new();
        while rest.len() > 0
            invariant
                new_blocks@.len() + rest@.len() == orig_len,
            decreases rest@.len(),
        {
            let block = rest.remove(0);
            let LLVMBasicBlock { label, instructions, terminator } = block;
            let mut kept: Vec<LLVMInstruction> = Vec::new();
            let mut old_instructions = instructions;
            while old_instructions.len() > 0
                decreases old_instructions@.len(),
            {
                let ins = old_instructions.remove(0);
                let keep = match (&ins.result, &ins.opcode) {
                    (None, _) => true,
                    (_, LLVMOpcode::Call) => true,
                    (_, LLVMOpcode::Store) => true,
                    (_, LLVMOpcode::Load) => true,
                    _ => false,
                };
                if keep {
                    kept.push(ins);
                }
            }
            new_blocks.push(LLVMBasicBlock {
                label,
                instructions: kept,
                terminator,
            });
        }
        LLVMFunction {
            name,
            return_type,
            parameters,
            basic_blocks: new_blocks,
            attributes,
            linkage,
        }
    }

    /// Optimize every function of the module.
    pub fn optimize(&self, module: LLVMModule) -> (r: LLVMModule)
        ensures
            r.functions@.len() == module.functions@.len(),
    {
        let LLVMModule { name, functions, global_variables, metadata, target_triple } = module;
        let ghost orig_len = functions@.len();
        let mut rest = functions;
        let mut optimized: Vec<LLVMFunction> = Vec::new();
        while rest.len() > 0
            invariant
                optimized@.len() + rest@.len() == orig_len,
            decreases rest@.len(),
        {
            let f = rest.remove(0);
            optimized.push(self.optimize_function(f));
        }
        LLVMModule {
            name,
            functions: optimized,
            global_variables,
            metadata,
            target_triple,
        }
    }

    /// Emit a minimal executable image: a four-kilobyte, little-endian,
    /// 64-bit image whose first four bytes are the executable magic and
    /// whose body exits with status zero.
    pub fn emit_machine_code(&self, module: &LLVMModule, target_triple: &str) -> (r: Vec<u8>)
        ensures
            r@.len() == 4096,
            r@[0] == 0x7fu8,
            r@[1] == 0x45u8,
            r@[2] == 0x4cu8,
            r@[3] == 0x46u8,
    {
        let mut code: Vec<u8> = Vec::new();
        // image header: magic, class, data, version
        code.push(0x7f);
        code.push(0x45);
        code.push(0x4c);
        code.push(0x46);
        code.push(0x02);
        code.push(0x01);
        code.push(0x01);
        code.push(0x00);
        let mut pad: usize = 0;
        while pad < 8
            invariant
                pad <= 8,
                code@.len() == 8 + pad,
                code@[0] == 0x7fu8,
                code@[1] == 0x45u8,
                code@[2] == 0x4cu8,
                code@[3] == 0x46u8,
            decreases 8 - pad,
        {
            code.push(0x00);
            pad += 1;
        }
        // object kind, machine, version, entry point, header offsets
        code.push(0x02);
        code.push(0x00);
        code.push(0x3e);
        code.push(0x00);
        code.push(0x01);
        code.push(0x00);
        code.push(0x00);
        code.push(0x00);
        let mut fill: usize = code.len();
        while fill < 120
            invariant
                24 <= code@.len(),
                fill == code@.len(),
                fill <= 120,
                code@[0] == 0x7fu8,
                code@[1] == 0x45u8,
                code@[2] == 0x4cu8,
                code@[3] == 0x46u8,
            decreases 120 - fill,
        {
            code.push(0x00);
            fill += 1;
        }
        // body: set the exit trap number, clear the status, trap
        code.push(0x48);
        code.push(0xc7);
        code.push(0xc0);
        code.push(0x3c);
        code.push(0x00);
        code.push(0x00);
        code.push(0x00);
        code.push(0x48);
        code.push(0xc7);
        code.push(0xc7);
        code.push(0x00);
        code.push(0x00);
        code.push(0x00);
        code.push(0x00);
        code.push(0x0f);
        code.push(0x05);
        let mut fill2: usize = code.len();
        while fill2 < 4096
            invariant
                136 <= code@.len(),
                fill2 == code@.len(),
                fill2 <= 4096,
                code@[0] == 0x7fu8,
                code@[1] == 0x45u8,
                code@[2] == 0x4cu8,
                code@[3] == 0x46u8,
            decreases 4096 - fill2,
        {
            code.push(0x00);
            fill2 += 1;
        }
        code
    }
}

} // verus!
