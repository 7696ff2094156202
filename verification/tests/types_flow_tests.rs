use nlmc::intent_extractor::{IntentExtractor, ProgramIntent, ControlFlowGraph, ControlFlowNode,
    ControlFlowNodeType, ControlFlowEdge, EdgeType, IntentMetadata};
use nlmc::semantic_analyzer::{SemanticAnalyzer, SafetyConstraintType, SemanticErrorType};
use nlmc::type_inferencer::{TypeInferencer, BaseType, FloatPrecision, InferredType, Lifetime,
    Mutability, Ownership, ConversionType, ConversionCost};
use nlmc::flow_analyzer::FlowAnalyzer;
use nlmc::llvm_generator::LLVMGenerator;
use nlmc::syscall_interface::{SystemCallInterface, SystemCallBuilder, SecurityPolicyType};

fn named(name: &str, base_type: BaseType, size: usize, align: usize) -> InferredType {
    InferredType {
        name: name.to_string(),
        base_type,
        size_bytes: size,
        alignment: align,
        is_nullable: false,
        lifetime: Lifetime::Unknown,
        mutability: Mutability::Mutable,
        ownership: Ownership::Owned,
        constraints: vec![],
    }
}

#[test]
fn type_sizes_are_pure_table_lookups() {
    let inferencer = TypeInferencer::new();
    assert_eq!(inferencer.calculate_type_size(&BaseType::Integer { bits: 16, signed: true }), 2);
    assert_eq!(inferencer.calculate_type_size(&BaseType::Integer { bits: 64, signed: false }), 8);
    assert_eq!(
        inferencer.calculate_type_size(&BaseType::Float { precision: FloatPrecision::Half }),
        2
    );
    assert_eq!(
        inferencer.calculate_type_size(&BaseType::Float { precision: FloatPrecision::Extended }),
        10
    );
    assert_eq!(inferencer.calculate_type_size(&BaseType::Boolean), 1);
    assert_eq!(inferencer.calculate_type_size(&BaseType::Character), 4);
    let ptr = BaseType::Pointer {
        target_type: Box::new(named("t", BaseType::Boolean, 1, 1)),
        is_const: false,
    };
    assert_eq!(inferencer.calculate_type_size(&ptr), 8);
    // calling twice gives the same answer: the function is deterministic
    assert_eq!(inferencer.calculate_type_size(&ptr), 8);
}

#[test]
fn type_alignment_table() {
    let inferencer = TypeInferencer::new();
    assert_eq!(
        inferencer.calculate_type_alignment(&BaseType::Float { precision: FloatPrecision::Double }),
        8
    );
    assert_eq!(
        inferencer.calculate_type_alignment(&BaseType::Float { precision: FloatPrecision::Extended }),
        8
    );
    assert_eq!(
        inferencer.calculate_type_alignment(&BaseType::Float { precision: FloatPrecision::Quad }),
        16
    );
    assert_eq!(inferencer.calculate_type_alignment(&BaseType::Integer { bits: 16, signed: true }), 2);
    assert_eq!(inferencer.calculate_type_alignment(&BaseType::Boolean), 1);
}

#[test]
fn fixed_array_size_is_element_times_length() {
    let inferencer = TypeInferencer::new();
    let arr = BaseType::Array {
        element_type: Box::new(named("e", BaseType::Integer { bits: 32, signed: true }, 4, 4)),
        length: nlmc::type_inferencer::ArrayLength::Fixed(5),
    };
    assert_eq!(inferencer.calculate_type_size(&arr), 20);
    let dynamic = BaseType::Array {
        element_type: Box::new(named("e", BaseType::Integer { bits: 32, signed: true }, 4, 4)),
        length: nlmc::type_inferencer::ArrayLength::Dynamic,
    };
    assert_eq!(inferencer.calculate_type_size(&dynamic), 16);
}

#[test]
fn widening_integer_conversion_is_free_and_safe() {
    let inferencer = TypeInferencer::new();
    let from = named("i16", BaseType::Integer { bits: 16, signed: true }, 2, 2);
    let to = named("i32", BaseType::Integer { bits: 32, signed: true }, 4, 4);
    let c = inferencer.analyze_type_conversion(&from, &to);
    assert_eq!(c.conversion_type, ConversionType::Implicit);
    assert_eq!(c.cost, ConversionCost::Free);
    assert!(c.is_safe);
}

#[test]
fn float_to_integer_conversion_is_moderate_and_unsafe() {
    let inferencer = TypeInferencer::new();
    let from = named("f64", BaseType::Float { precision: FloatPrecision::Double }, 8, 8);
    let to = named("i32", BaseType::Integer { bits: 32, signed: true }, 4, 4);
    let c = inferencer.analyze_type_conversion(&from, &to);
    assert_eq!(c.conversion_type, ConversionType::Explicit);
    assert_eq!(c.cost, ConversionCost::Moderate);
    assert!(!c.is_safe);
}

#[test]
fn narrowing_and_mixed_conversions() {
    let inferencer = TypeInferencer::new();
    let i32t = named("i32", BaseType::Integer { bits: 32, signed: true }, 4, 4);
    let i16t = named("i16", BaseType::Integer { bits: 16, signed: true }, 2, 2);
    let f64t = named("f64", BaseType::Float { precision: FloatPrecision::Double }, 8, 8);
    let boolean = named("bool", BaseType::Boolean, 1, 1);
    let narrowing = inferencer.analyze_type_conversion(&i32t, &i16t);
    assert_eq!(narrowing.cost, ConversionCost::Cheap);
    assert!(!narrowing.is_safe);
    let promote = inferencer.analyze_type_conversion(&i32t, &f64t);
    assert_eq!(promote.conversion_type, ConversionType::Implicit);
    assert_eq!(promote.cost, ConversionCost::Cheap);
    assert!(promote.is_safe);
    let forbidden = inferencer.analyze_type_conversion(&boolean, &f64t);
    assert_eq!(forbidden.cost, ConversionCost::Prohibited);
}

#[test]
fn semantic_analysis_derives_safety_constraints() {
    let extractor = IntentExtractor::new();
    let analyzer = SemanticAnalyzer::new();
    // one arithmetic operation: one overflow check of medium severity
    let intent = extractor.extract_intent("Add the number alpha to everything", "");
    let model = analyzer.analyze(&intent);
    assert!(model
        .safety_constraints
        .iter()
        .any(|c| c.constraint_type == SafetyConstraintType::OverflowCheck));
    assert_eq!(model.variables.len(), 1);
    assert_eq!(model.variables[0].name, "alpha");
}

#[test]
fn undefined_inputs_are_recorded_not_fatal() {
    let extractor = IntentExtractor::new();
    let analyzer = SemanticAnalyzer::new();
    let mut intent = extractor.extract_intent("Add x and y", "");
    intent.operations[0].inputs.push("ghost_name".to_string());
    let model = analyzer.analyze(&intent);
    assert!(model.semantic_errors.iter().any(|e| {
        e.error_type == SemanticErrorType::UndefinedVariable
            && e.message == "Undefined variable or function: ghost_name"
    }));
}

#[test]
fn type_inference_covers_data_structures_and_results() {
    let extractor = IntentExtractor::new();
    let analyzer = SemanticAnalyzer::new();
    let inferencer = TypeInferencer::new();
    let mut intent = extractor.extract_intent("Add the number beta to things", "");
    intent.operations[0].outputs.push("total".to_string());
    let semantic = analyzer.analyze(&intent);
    let types = inferencer.infer_types(&intent, &semantic);
    assert_eq!(types.types[0].0, "beta");
    assert!(types
        .types
        .iter()
        .any(|(name, t)| name == "total" && t.name == "arithmetic_result" && t.size_bytes == 4));
    // the arithmetic result lives on the stack frame
    assert_eq!(types.memory_layout.stack_layout.frame_size, 4);
    assert_eq!(types.memory_layout.stack_layout.variables[0].offset, 0);
}

#[test]
fn stack_offsets_round_up_to_alignment() {
    let extractor = IntentExtractor::new();
    let analyzer = SemanticAnalyzer::new();
    let inferencer = TypeInferencer::new();
    // an addition result (4 bytes, 4-aligned) followed by a division
    // result (8 bytes, 8-aligned): the second offset rounds 4 up to 8
    let mut intent = extractor.extract_intent("Add p and q", "");
    intent.operations[0].outputs.push("partial".to_string());
    intent.operations.push(nlmc::intent_extractor::Operation {
        id: intent.operations.len(),
        operation_type: nlmc::intent_extractor::OperationType::Arithmetic {
            operator: nlmc::intent_extractor::ArithmeticOp::Divide,
        },
        inputs: vec![],
        outputs: vec!["ratio".to_string()],
        description: "divide the partial".to_string(),
        confidence: 800,
    });
    let semantic = analyzer.analyze(&intent);
    let types = inferencer.infer_types(&intent, &semantic);
    let vars = &types.memory_layout.stack_layout.variables;
    assert_eq!(vars.len(), 2);
    assert_eq!(vars[0].name, "partial");
    assert_eq!(vars[0].offset, 0);
    assert_eq!(vars[0].size, 4);
    assert_eq!(vars[1].name, "ratio");
    assert_eq!(vars[1].offset, 8);
    assert_eq!(vars[1].size, 8);
    assert_eq!(types.memory_layout.stack_layout.frame_size, 16);
}

fn loop_shaped_intent() -> ProgramIntent {
    let node = |id: usize, node_type| ControlFlowNode { id, node_type, operations: vec![] };
    let edge = |from: usize, to: usize| ControlFlowEdge {
        from,
        to,
        condition: None,
        edge_type: EdgeType::Unconditional,
    };
    ProgramIntent {
        operations: vec![],
        data_structures: vec![],
        control_flow: ControlFlowGraph {
            nodes: vec![
                node(0, ControlFlowNodeType::Entry),
                node(1, ControlFlowNodeType::Loop),
                node(2, ControlFlowNodeType::BasicBlock),
                node(3, ControlFlowNodeType::Exit),
            ],
            edges: vec![edge(0, 1), edge(1, 2), edge(2, 1), edge(2, 3)],
            entry_point: 0,
            exit_points: vec![3],
        },
        constraints: vec![],
        ambiguities: vec![],
        metadata: IntentMetadata {
            complexity_score: 0,
            estimated_runtime: None,
            memory_requirements: None,
            system_dependencies: vec![],
            optimization_hints: vec![],
        },
    }
}

#[test]
fn dominance_of_a_straight_chain() {
    let extractor = IntentExtractor::new();
    let analyzer = SemanticAnalyzer::new();
    let inferencer = TypeInferencer::new();
    let flow = FlowAnalyzer::new();
    let intent = extractor.extract_intent("Add x and y and print it", "");
    let semantic = analyzer.analyze(&intent);
    let types = inferencer.infer_types(&intent, &semantic);
    let model = flow.analyze_flows(&intent, &semantic, &types);
    let n = model.control_blocks.len();
    assert_eq!(n, intent.control_flow.nodes.len());
    // the entry dominates only itself...
    assert!(model.dominator_sets[0][0]);
    for x in 1..n {
        assert!(!model.dominator_sets[0][x]);
    }
    // ...and on a straight chain every block is dominated by all its
    // predecessors in the chain
    for b in 0..n {
        for x in 0..n {
            assert_eq!(model.dominator_sets[b][x], x <= b);
        }
        // the per-block lists mirror the matrix in both directions
        let dominated_by: Vec<usize> = (0..=b).collect();
        assert_eq!(model.control_blocks[b].dominated_by, dominated_by);
        let dominates: Vec<usize> = (b..n).collect();
        assert_eq!(model.control_blocks[b].dominates, dominates);
    }
    assert!(model.loop_analysis.natural_loops.is_empty());
}

#[test]
fn natural_loop_detection_on_a_back_edge() {
    let analyzer = SemanticAnalyzer::new();
    let inferencer = TypeInferencer::new();
    let flow = FlowAnalyzer::new();
    let intent = loop_shaped_intent();
    let semantic = analyzer.analyze(&intent);
    let types = inferencer.infer_types(&intent, &semantic);
    let model = flow.analyze_flows(&intent, &semantic, &types);
    assert_eq!(model.loop_analysis.natural_loops.len(), 1);
    let lp = &model.loop_analysis.natural_loops[0];
    assert_eq!(lp.header, 1);
    assert_eq!(lp.latch, 2);
    assert!(lp.body.contains(&1));
    assert!(lp.body.contains(&2));
    // the back edge's target dominates its source
    assert!(model.dominator_sets[lp.latch][lp.header]);
    for e in &lp.exits {
        assert!(!lp.body.contains(e));
    }
    // every loop yields a motion opportunity; small loops also unroll
    assert!(model.optimization_opportunities.iter().any(|o| {
        o.opportunity_type == nlmc::flow_analyzer::OptimizationType::LoopInvariantCodeMotion
    }));
    assert!(model.optimization_opportunities.iter().any(|o| {
        o.opportunity_type == nlmc::flow_analyzer::OptimizationType::LoopUnrolling
    }));
}

#[test]
fn reaching_definitions_record_results() {
    let extractor = IntentExtractor::new();
    let analyzer = SemanticAnalyzer::new();
    let inferencer = TypeInferencer::new();
    let flow = FlowAnalyzer::new();
    let mut intent = extractor.extract_intent("Add x and y", "");
    intent.operations[0].outputs.push("total".to_string());
    let semantic = analyzer.analyze(&intent);
    let types = inferencer.infer_types(&intent, &semantic);
    let model = flow.analyze_flows(&intent, &semantic, &types);
    assert_eq!(model.reaching_definitions.len(), 1);
    assert_eq!(model.reaching_definitions[0].0, "total");
}

#[test]
fn module_generation_and_machine_code() {
    let extractor = IntentExtractor::new();
    let analyzer = SemanticAnalyzer::new();
    let inferencer = TypeInferencer::new();
    let flow = FlowAnalyzer::new();
    let generator = LLVMGenerator::new();
    let intent = extractor.extract_intent("Add x and y and print it", "");
    let semantic = analyzer.analyze(&intent);
    let types = inferencer.infer_types(&intent, &semantic);
    let model = flow.analyze_flows(&intent, &semantic, &types);
    let module = generator.generate_module(&intent, &semantic, &types, &model);
    // the main function plus the reader and writer helpers
    assert_eq!(module.function_count(), 3);
    let optimized = generator.optimize(module);
    assert_eq!(optimized.function_count(), 3);
    let code = generator.emit_machine_code(&optimized, "x86_64-unknown-linux-gnu");
    assert_eq!(code.len(), 4096);
    assert_eq!(code[0], 0x7f);
    assert_eq!(code[1], b'E');
    assert_eq!(code[2], b'L');
    assert_eq!(code[3], b'F');
}

#[test]
fn sandbox_policy_allows_only_basic_calls() {
    let interface = SystemCallInterface::new();
    assert!(interface.is_syscall_allowed("read", &SecurityPolicyType::Sandbox));
    assert!(interface.is_syscall_allowed("write", &SecurityPolicyType::Sandbox));
    assert!(interface.is_syscall_allowed("exit", &SecurityPolicyType::Sandbox));
    assert!(!interface.is_syscall_allowed("mmap", &SecurityPolicyType::Sandbox));
    assert!(interface.is_syscall_allowed("mmap", &SecurityPolicyType::Standard));
}

#[test]
fn syscall_lookup_and_listing() {
    let interface = SystemCallInterface::new();
    assert!(interface.get_syscall("write").is_some());
    assert!(interface.get_syscall("fork").is_none());
    let on_linux = interface.list_available_syscalls("linux-x86_64");
    assert_eq!(on_linux.len(), 4);
    // unknown platforms only see the platform-independent calls
    let elsewhere = interface.list_available_syscalls("riscv-unknown");
    assert_eq!(elsewhere.len(), 3);
}

#[test]
fn syscall_inference_from_descriptions() {
    let builder = SystemCallBuilder::new();
    assert_eq!(builder.infer_syscall_from_description("read a line"), Some("read".to_string()));
    assert_eq!(builder.infer_syscall_from_description("print the total"), Some("write".to_string()));
    assert_eq!(builder.infer_syscall_from_description("terminate now"), Some("exit".to_string()));
    assert_eq!(builder.infer_syscall_from_description("allocate a buffer"), Some("mmap".to_string()));
    assert_eq!(builder.infer_syscall_from_description("dance wildly"), None);
}

#[test]
fn syscall_wrapper_generation() {
    let interface = SystemCallInterface::new();
    let wrapper = interface.generate_syscall_wrapper("read", "linux-x86_64").unwrap();
    assert!(wrapper.contains("read"));
    assert!(wrapper.contains("rax"));
    assert!(interface.generate_syscall_wrapper("fork", "linux-x86_64").is_err());
    assert!(interface.generate_syscall_wrapper("read", "m68k").is_err());
    let builder = SystemCallBuilder::new();
    let integration = builder.generate_integration_code("write", "windows-x86_64").unwrap();
    assert!(integration.contains("WriteFile"));
}
