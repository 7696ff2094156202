use nlmc::intent_extractor::{IntentExtractor, Ambiguity, DataStructure, DataType, Scope,
    OperationType, ArithmeticOp};
use nlmc::ambiguity_resolver::AmbiguityResolver;
use nlmc::error_recovery::{ErrorRecovery, CompilationError, ErrorType, ErrorSeverity,
    RecoveryOutcome};

fn intent_with(input: &str, extra_vars: Vec<&str>) -> nlmc::intent_extractor::ProgramIntent {
    let extractor = IntentExtractor::new();
    let mut intent = extractor.extract_intent(input, "");
    for name in extra_vars {
        intent.data_structures.push(DataStructure {
            name: name.to_string(),
            data_type: DataType::Integer { bits: 32, signed: true },
            size: None,
            initial_value: None,
            scope: Scope::Global,
        });
    }
    intent
}

#[test]
fn resolved_plus_remaining_equals_original() {
    let resolver = AmbiguityResolver::new();
    let extractor = IntentExtractor::new();
    let mut intent = extractor.extract_intent("Add x and y and print it", "");
    // an ambiguity nothing can resolve: no rule fires, no context applies,
    // no oracle reply, and no interpretation to default to
    intent.ambiguities.push(Ambiguity {
        id: "opaque".to_string(),
        description: "unresolvable".to_string(),
        possible_interpretations: vec![],
        context: "nothing matches here".to_string(),
        confidence_scores: vec![],
    });
    let original = intent.ambiguities.len();
    let (resolved_intent, result) = resolver.resolve_ambiguities(intent, &vec![]);
    assert_eq!(
        result.resolved_ambiguities.len() + result.remaining_ambiguities.len(),
        original
    );
    assert_eq!(resolved_intent.ambiguities.len(), result.remaining_ambiguities.len());
    assert_eq!(result.remaining_ambiguities.len(), 1);
    assert_eq!(result.remaining_ambiguities[0].id, "opaque");
}

#[test]
fn scenario_add_x_and_y_and_print_it() {
    // the generic pronoun rule is checked before contextual inference, so a
    // plain "it" resolves by rule at confidence 0.7
    let resolver = AmbiguityResolver::new();
    let intent = intent_with("Add x and y and print it", vec!["x", "y"]);
    assert_eq!(intent.ambiguities.len(), 1);
    let (resolved_intent, result) = resolver.resolve_ambiguities(intent, &vec![]);
    assert_eq!(result.resolved_ambiguities.len(), 1);
    let r = &result.resolved_ambiguities[0];
    assert_eq!(r.chosen_interpretation, "most_recent_variable");
    assert_eq!(r.confidence, 700);
    assert!(result.remaining_ambiguities.is_empty());
    assert!(resolved_intent.ambiguities.is_empty());
}

#[test]
fn contextual_inference_picks_most_recent_variable() {
    // with no rule pattern in sight, a pronoun ambiguity resolves to the
    // most recently declared variable at confidence 0.75
    let resolver = AmbiguityResolver::new();
    let mut intent = intent_with("plain words", vec!["x", "y"]);
    intent.ambiguities.push(Ambiguity {
        id: "pronoun_ambiguity".to_string(),
        description: "a pronoun needs an antecedent".to_string(),
        possible_interpretations: vec!["a".to_string(), "b".to_string()],
        context: "no trigger words here".to_string(),
        confidence_scores: vec![500, 500],
    });
    let (_, result) = resolver.resolve_ambiguities(intent, &vec![]);
    assert_eq!(result.resolved_ambiguities.len(), 1);
    let r = &result.resolved_ambiguities[0];
    assert_eq!(r.chosen_interpretation, "y");
    assert_eq!(r.confidence, 750);
}

#[test]
fn rule_table_resolves_calculated_sums() {
    let resolver = AmbiguityResolver::new();
    let mut intent = intent_with("plain words", vec![]);
    intent.ambiguities.push(Ambiguity {
        id: "operation_ambiguity".to_string(),
        description: "which calculation".to_string(),
        possible_interpretations: vec!["add".to_string(), "mul".to_string()],
        context: "calculate the running sum".to_string(),
        confidence_scores: vec![500, 500],
    });
    let (_, result) = resolver.resolve_ambiguities(intent, &vec![]);
    assert_eq!(result.resolved_ambiguities.len(), 1);
    let r = &result.resolved_ambiguities[0];
    assert_eq!(r.chosen_interpretation, "addition_operation");
    assert_eq!(r.confidence, 900);
}

#[test]
fn default_resolution_takes_first_interpretation() {
    let resolver = AmbiguityResolver::new();
    let mut intent = intent_with("plain words", vec![]);
    intent.ambiguities.push(Ambiguity {
        id: "other".to_string(),
        description: "unclear meaning".to_string(),
        possible_interpretations: vec!["first".to_string(), "second".to_string()],
        context: "no trigger words".to_string(),
        confidence_scores: vec![500, 500],
    });
    let (_, result) = resolver.resolve_ambiguities(intent, &vec![]);
    assert_eq!(result.resolved_ambiguities.len(), 1);
    let r = &result.resolved_ambiguities[0];
    assert_eq!(r.chosen_interpretation, "first");
    assert_eq!(r.confidence, 300);
}

#[test]
fn oracle_reply_resolves_when_complete() {
    let resolver = AmbiguityResolver::new();
    let mut intent = intent_with("plain words", vec![]);
    intent.ambiguities.push(Ambiguity {
        id: "other".to_string(),
        description: "unclear meaning".to_string(),
        possible_interpretations: vec![],
        context: "no trigger words".to_string(),
        confidence_scores: vec![],
    });
    let reply = r#"{"chosen_interpretation": "use the sum", "confidence": 0.85, "reasoning": "context suggests addition"}"#;
    let (_, result) = resolver.resolve_ambiguities(intent, &vec![reply.to_string()]);
    assert_eq!(result.resolved_ambiguities.len(), 1);
    let r = &result.resolved_ambiguities[0];
    assert_eq!(r.chosen_interpretation, "use the sum");
    assert_eq!(r.confidence, 850);
    assert_eq!(r.reasoning, "context suggests addition");
}

#[test]
fn pronoun_resolution_rewrites_inputs() {
    let resolver = AmbiguityResolver::new();
    let mut intent = intent_with("Add x and y and print it", vec!["x", "y"]);
    // give the output operation a pronoun input
    let out_pos = intent
        .operations
        .iter()
        .position(|op| matches!(op.operation_type, OperationType::Output { .. }))
        .unwrap();
    intent.operations[out_pos].inputs.push("it".to_string());
    let (resolved_intent, _) = resolver.resolve_ambiguities(intent, &vec![]);
    assert_eq!(resolved_intent.operations[out_pos].inputs, vec!["most_recent_variable".to_string()]);
    // descriptions are rewritten by plain substring replacement, so even
    // the "it" inside "addition" is substituted
    assert_eq!(
        resolved_intent.operations[0].description,
        "Pattern matched: addmost_recent_variableion"
    );
}

#[test]
fn operation_resolution_rewrites_calculations() {
    let resolver = AmbiguityResolver::new();
    let mut intent = intent_with("plain words", vec![]);
    intent.operations.push(nlmc::intent_extractor::Operation {
        id: intent.operations.len(),
        operation_type: OperationType::Output { format: None },
        inputs: vec![],
        outputs: vec![],
        description: "calculate the total".to_string(),
        confidence: 800,
    });
    intent.ambiguities.push(Ambiguity {
        id: "operation_ambiguity".to_string(),
        description: "which calculation".to_string(),
        possible_interpretations: vec![],
        context: "calculate the running sum".to_string(),
        confidence_scores: vec![],
    });
    let (resolved_intent, _) = resolver.resolve_ambiguities(intent, &vec![]);
    let op = resolved_intent.operations.last().unwrap();
    assert!(matches!(
        op.operation_type,
        OperationType::Arithmetic { operator: ArithmeticOp::Add }
    ));
}

#[test]
fn resolution_stats_report_table_sizes() {
    let resolver = AmbiguityResolver::new();
    let stats = resolver.get_resolution_stats();
    assert_eq!(stats[0].0, "total_rules");
    assert_eq!(stats[0].1, 6);
    assert_eq!(stats[1].0, "context_history_size");
    assert_eq!(stats[1].1, 0);
}

fn error_of(t: ErrorType, severity: ErrorSeverity) -> CompilationError {
    CompilationError {
        error_type: t,
        message: "problem".to_string(),
        location: None,
        severity,
        recovery_suggestions: vec![],
        context: String::new(),
    }
}

#[test]
fn undefined_reference_selects_use_default() {
    // UseDefault scores (0.7 * 1.0 + 0.8) / 2 = 0.75 for an Error-severity
    // undefined reference, beating every other applicable strategy
    let mut recovery = ErrorRecovery::new();
    let result = recovery.handle_error(error_of(ErrorType::UndefinedReference, ErrorSeverity::Error));
    assert_eq!(result.outcome, RecoveryOutcome::Success);
    assert_eq!(result.action_taken, "Inserted default variable definition");
    assert_eq!(result.confidence, 800);
}

#[test]
fn optimization_failure_prefers_fallback() {
    // FallbackImplementation scores (0.9 + 0.9) / 2 = 0.9, above
    // RetryWithModification at (0.8 + 0.7) / 2 = 0.75
    let mut recovery = ErrorRecovery::new();
    let result = recovery.handle_error(error_of(ErrorType::OptimizationFailure, ErrorSeverity::Error));
    assert_eq!(result.action_taken, "Disabled problematic optimization pass");
}

#[test]
fn unmatched_errors_fall_back_to_skip() {
    let mut recovery = ErrorRecovery::new();
    let result = recovery.handle_error(error_of(ErrorType::SystemError, ErrorSeverity::Warning));
    assert_eq!(result.outcome, RecoveryOutcome::PartialSuccess);
    assert!(result.action_taken.starts_with("Skipped problematic element"));
}

#[test]
fn history_grows_by_one_per_call() {
    let mut recovery = ErrorRecovery::new();
    let e = error_of(ErrorType::UndefinedReference, ErrorSeverity::Error);
    recovery.handle_error(e.clone());
    recovery.handle_error(e);
    let stats = recovery.get_error_statistics();
    assert_eq!(stats.total_errors, 2);
    assert_eq!(stats.errors_by_type.len(), 1);
    assert_eq!(stats.errors_by_type[0].1, 2);
    assert_eq!(stats.recovery_success_rate, 750);
}

#[test]
fn clearing_history_resets_statistics() {
    let mut recovery = ErrorRecovery::new();
    recovery.handle_error(error_of(ErrorType::SyntaxError, ErrorSeverity::Fatal));
    recovery.clear_history();
    assert_eq!(recovery.get_error_statistics().total_errors, 0);
}
