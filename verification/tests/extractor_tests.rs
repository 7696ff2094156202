use nlmc::intent_extractor::{IntentExtractor, OperationType, ArithmeticOp, DataType};
use nlmc::text::extract_code_from_response;
use nlmc::json::millis_of_number;

#[test]
fn pattern_operations_for_add_and_print() {
    let extractor = IntentExtractor::new();
    let intent = extractor.extract_intent("Add x and y and print it", "");
    assert!(intent.operations.len() >= 2);
    assert!(matches!(
        intent.operations[0].operation_type,
        OperationType::Arithmetic { operator: ArithmeticOp::Add }
    ));
    assert!(matches!(intent.operations[1].operation_type, OperationType::Output { .. }));
    assert_eq!(intent.operations[0].confidence, 800);
    assert_eq!(intent.operations[0].description, "Pattern matched: addition");
}

#[test]
fn pronoun_ambiguity_detected() {
    let extractor = IntentExtractor::new();
    let intent = extractor.extract_intent("Add x and y and print it", "");
    assert_eq!(intent.ambiguities.len(), 1);
    let amb = &intent.ambiguities[0];
    assert_eq!(amb.id, "pronoun_ambiguity");
    assert_eq!(amb.possible_interpretations.len(), 2);
    assert_eq!(amb.confidence_scores, vec![600, 400]);
}

#[test]
fn ambiguity_lists_are_parallel() {
    // every detected ambiguity carries one confidence per interpretation
    let extractor = IntentExtractor::new();
    for input in [
        "Add x and y and print it",
        "calculate the values",
        "loop over this and that",
        "plain text with no triggers at all",
    ] {
        let intent = extractor.extract_intent(input, "");
        for amb in &intent.ambiguities {
            assert_eq!(amb.possible_interpretations.len(), amb.confidence_scores.len());
        }
    }
}

#[test]
fn calculation_ambiguity_detected() {
    let extractor = IntentExtractor::new();
    let intent = extractor.extract_intent("calculate something for me", "");
    assert_eq!(intent.ambiguities.len(), 1);
    assert_eq!(intent.ambiguities[0].id, "operation_ambiguity");
    assert_eq!(intent.ambiguities[0].confidence_scores, vec![400, 300, 300]);
}

#[test]
fn extractor_is_idempotent_on_pattern_results() {
    let extractor = IntentExtractor::new();
    let a = extractor.extract_intent("Add x and y and print it", "");
    let b = extractor.extract_intent("Add x and y and print it", "");
    assert_eq!(a.operations.len(), b.operations.len());
    for (x, y) in a.operations.iter().zip(b.operations.iter()) {
        assert_eq!(x.id, y.id);
        assert_eq!(x.description, y.description);
        assert_eq!(x.confidence, y.confidence);
    }
    assert_eq!(a.ambiguities.len(), b.ambiguities.len());
    for (x, y) in a.ambiguities.iter().zip(b.ambiguities.iter()) {
        assert_eq!(x.id, y.id);
        assert_eq!(x.confidence_scores, y.confidence_scores);
    }
}

#[test]
fn control_flow_is_a_straight_chain() {
    let extractor = IntentExtractor::new();
    let intent = extractor.extract_intent("Add x and y and print it", "");
    let n = intent.operations.len();
    assert_eq!(intent.control_flow.nodes.len(), n + 2);
    assert_eq!(intent.control_flow.edges.len(), n + 1);
    assert_eq!(intent.control_flow.entry_point, 0);
    assert_eq!(intent.control_flow.exit_points, vec![n + 1]);
    for (i, edge) in intent.control_flow.edges.iter().enumerate() {
        assert_eq!(edge.from, i);
        assert_eq!(edge.to, i + 1);
    }
}

#[test]
fn complexity_score_formula() {
    let extractor = IntentExtractor::new();
    // two operations, no loop: 2 * 0.1 = 0.2
    let intent = extractor.extract_intent("Add x and y and print it", "");
    assert_eq!(intent.operations.len(), 2);
    assert_eq!(intent.metadata.complexity_score, 200);
    // a loop adds 0.1 for the operation and 0.3 for being a loop
    let with_loop = extractor.extract_intent("repeat the sum of a and b", "");
    assert!(with_loop
        .operations
        .iter()
        .any(|op| matches!(op.operation_type, OperationType::Loop { .. })));
    assert_eq!(with_loop.metadata.complexity_score, 200 + 300);
}

#[test]
fn memory_estimate_uses_size_table() {
    let extractor = IntentExtractor::new();
    // "number a" declares a 32-bit integer: four bytes
    let intent = extractor.extract_intent("store the number alpha somewhere quiet", "");
    assert_eq!(intent.data_structures.len(), 1);
    assert_eq!(intent.data_structures[0].name, "alpha");
    assert!(matches!(
        intent.data_structures[0].data_type,
        DataType::Integer { bits: 32, signed: true }
    ));
    assert_eq!(intent.metadata.memory_requirements, Some(4));
}

#[test]
fn array_pattern_declares_an_array() {
    let extractor = IntentExtractor::new();
    let intent = extractor.extract_intent("keep an array of prime entries", "");
    assert!(intent.data_structures.iter().any(|ds| ds.name == "prime_array"
        && matches!(ds.data_type, DataType::Array { .. })));
    // a dynamic array is a sixteen-byte header in the size table
    assert_eq!(intent.metadata.memory_requirements, Some(16));
}

#[test]
fn oracle_reply_operations_are_appended() {
    let extractor = IntentExtractor::new();
    let reply = r#"{"operations": [{"operation_type": "output", "description": "emit", "inputs": ["q"], "outputs": [], "confidence": 0.9}], "data_structures": [{"name": "q", "data_type": "integer", "scope": "global"}]}"#;
    let intent = extractor.extract_intent("nothing that matches a pattern", reply);
    assert_eq!(intent.operations.len(), 1);
    assert!(matches!(intent.operations[0].operation_type, OperationType::Output { .. }));
    assert_eq!(intent.operations[0].confidence, 900);
    assert_eq!(intent.operations[0].inputs, vec!["q".to_string()]);
    assert!(intent.data_structures.iter().any(|ds| ds.name == "q"));
}

#[test]
fn malformed_oracle_reply_degrades_to_patterns() {
    let extractor = IntentExtractor::new();
    let a = extractor.extract_intent("Add x and y and print it", "this is not json at all");
    let b = extractor.extract_intent("Add x and y and print it", "");
    assert_eq!(a.operations.len(), b.operations.len());
}

#[test]
fn fenced_block_extraction() {
    let reply = "Here you go:\n```rust\nlet x = 1;\n```\nEnjoy!";
    assert_eq!(extract_code_from_response(reply), "let x = 1;");
    // no fence: the raw response comes back unchanged
    assert_eq!(extract_code_from_response("plain answer"), "plain answer");
    // a block without a newline has no language tag to strip
    assert_eq!(extract_code_from_response("```abc```"), "abc");
}

#[test]
fn decimal_confidence_reading() {
    assert_eq!(millis_of_number("0.85"), Some(850));
    assert_eq!(millis_of_number("0.7"), Some(700));
    assert_eq!(millis_of_number("1"), Some(1000));
    assert_eq!(millis_of_number("1.5"), Some(1000));
    assert_eq!(millis_of_number("0.1234"), Some(123));
    assert_eq!(millis_of_number("0"), Some(0));
    assert_eq!(millis_of_number("not a number"), None);
    assert_eq!(millis_of_number(""), None);
}
