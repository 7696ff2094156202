//! Error recovery: a fixed table of recovery strategies, a scoring rule that
//! weighs a strategy's success rate by the error's severity and averages it
//! with a per-strategy historical rate, and the application of the selected
//! strategy to produce a recovery result.
//!
//! Rates and confidences are integer thousandths of a unit; scores are
//! integer ten-thousandths, so that a success rate of 700 (0.700) at an
//! error-severity multiplier of 10 (1.0) averaged with a historical rate of
//! 800 (0.800) gives the exact score 7500 (0.75).

use vstd::prelude::*;

verus! {

#[derive(Debug, Clone, Copy, PartialEq, Eq, Structural)]
pub enum ErrorType {
    SyntaxError,
    SemanticError,
    TypeError,
    RuntimeError,
    TypeMismatch,
    UndefinedReference,
    AmbiguityResolutionFailure,
    MemoryLayoutError,
    OptimizationFailure,
    CodeGenerationError,
    LLMCommunicationError,
    SystemError,
}

#[derive(Debug, Clone, Copy, PartialEq, Eq, Structural)]
pub enum CompilationStage {
    IntentExtraction,
    SemanticAnalysis,
    TypeInference,
    FlowAnalysis,
    LLVMGeneration,
    Optimization,
    CodeEmission,
}

#[derive(Debug, Clone, Copy, PartialEq, Eq, Structural)]
pub enum ErrorSeverity {
    Fatal,
    Error,
    Warning,
    Info,
}

#[derive(Debug, Clone)]
pub struct ErrorLocation {
    pub stage: CompilationStage,
    pub component: String,
    pub line: Option<usize>,
    pub column: Option<usize>,
}

#[derive(Debug, Clone)]
pub struct CompilationError {
    pub error_type: ErrorType,
    pub message: String,
    pub location: Option<ErrorLocation>,
    pub severity: ErrorSeverity,
    pub recovery_suggestions: Vec<String>,
    pub context: String,
}

#[derive(Debug, Clone, Copy, PartialEq, Eq, Structural)]
pub enum RecoveryStrategyType {
    SkipAndContinue,
    UseDefault,
    RetryWithModification,
    FallbackImplementation,
    UserInteraction,
    AlternativeApproach,
}

/// A recovery strategy: the errors it applies to and its base success rate,
/// in thousandths of a unit.
#[derive(Debug, Clone)]
pub struct RecoveryStrategy {
    pub strategy_type: RecoveryStrategyType,
    pub applicable_errors: Vec<ErrorType>,
    pub success_rate: u32,
    pub description: String,
}

#[derive(Debug, Clone, Copy, PartialEq, Eq, Structural)]
pub enum RecoveryActionType {
    InsertDefault,
    RemoveProblematic,
    ReplaceWith,
    SimplifyConstruct,
    RequestClarification,
    UseAlternativeAlgorithm,
}

/// A canned recovery action for a named error pattern; `confidence` is in
/// thousandths of a unit.
#[derive(Debug, Clone)]
pub struct RecoveryAction {
    pub action_type: RecoveryActionType,
    pub parameters: Vec<(String, String)>,
    pub confidence: u32,
}

#[derive(Debug, Clone, Copy, PartialEq, Eq, Structural)]
pub enum RecoveryOutcome {
    Success,
    PartialSuccess,
    Failed,
    RequiresUserInput,
}

/// The result of applying a recovery strategy; `confidence` is in
/// thousandths of a unit.
#[derive(Debug, Clone)]
pub struct RecoveryResult {
    pub outcome: RecoveryOutcome,
    pub action_taken: String,
    pub modified_elements: Vec<String>,
    pub confidence: u32,
    pub warnings: Vec<String>,
}

/// Error statistics over the recorded history. Counts are listed once per
/// kind that occurs at least once, in declaration order of the kind.
#[derive(Debug, Clone)]
pub struct ErrorStatistics {
    pub total_errors: usize,
    pub errors_by_type: Vec<(ErrorType, usize)>,
    pub errors_by_severity: Vec<(ErrorSeverity, usize)>,
    pub errors_by_stage: Vec<(CompilationStage, usize)>,
    pub recovery_success_rate: u32,
}

/// Severity multiplier in tenths of a unit: Fatal 1.2, Error 1.0,
/// Warning 0.8, Info 0.5.
pub open spec fn spec_severity_multiplier(s: ErrorSeverity) -> u32 {
    match s {
        ErrorSeverity::Fatal => 12,
        ErrorSeverity::Error => 10,
        ErrorSeverity::Warning => 8,
        ErrorSeverity::Info => 5,
    }
}

/// Fixed historical success rate per strategy type, in thousandths.
pub open spec fn spec_historical_success_rate(t: RecoveryStrategyType) -> u32 {
    match t {
        RecoveryStrategyType::UseDefault => 800,
        RecoveryStrategyType::FallbackImplementation => 900,
        RecoveryStrategyType::RetryWithModification => 700,
        RecoveryStrategyType::SkipAndContinue => 500,
        RecoveryStrategyType::AlternativeApproach => 600,
        RecoveryStrategyType::UserInteraction => 400,
    }
}

/// Score of a strategy against an error, in ten-thousandths of a unit:
/// the severity-weighted success rate averaged with the historical rate.
pub open spec fn spec_strategy_score(rate: u32, t: RecoveryStrategyType, s: ErrorSeverity) -> u32
    recommends
        rate <= 1000,
{
    ((rate * spec_severity_multiplier(s) + spec_historical_success_rate(t) * 10) / 2) as u32
}

pub open spec fn strategy_applies(s: RecoveryStrategy, e: ErrorType) -> bool {
    s.applicable_errors@.contains(e)
}

pub open spec fn strategy_rates_valid(strategies: Seq<RecoveryStrategy>) -> bool {
    forall|i: int| 0 <= i < strategies.len() ==> (#[trigger] strategies[i]).success_rate <= 1000
}

/// The strategy the selection loop settles on: strategies are visited in
/// order and a later one replaces the current choice only with a strictly
/// greater score. The second component is the best score so far.
pub open spec fn spec_select(
    strategies: Seq<RecoveryStrategy>,
    et: ErrorType,
    sev: ErrorSeverity,
) -> (Option<RecoveryStrategy>, u32)
    decreases strategies.len(),
{
    if strategies.len() == 0 {
        (None, 0)
    } else {
        let (prev, prev_score) = spec_select(strategies.drop_last(), et, sev);
        let s = strategies.last();
        let sc = spec_strategy_score(s.success_rate, s.strategy_type, sev);
        if strategy_applies(s, et) && sc > prev_score {
            (Some(s), sc)
        } else {
            (prev, prev_score)
        }
    }
}

/// The selected strategy's score is at least every applicable strategy's
/// score, and a selected strategy is applicable.
pub proof fn lemma_select_is_max(strategies: Seq<RecoveryStrategy>, et: ErrorType, sev: ErrorSeverity)
    ensures
        forall|i: int| 0 <= i < strategies.len() && strategy_applies(#[trigger] strategies[i], et)
            ==> spec_strategy_score(strategies[i].success_rate, strategies[i].strategy_type, sev)
                <= spec_select(strategies, et, sev).1,
        spec_select(strategies, et, sev).0 matches Some(s) ==> strategy_applies(s, et)
            && spec_strategy_score(s.success_rate, s.strategy_type, sev)
                == spec_select(strategies, et, sev).1,
    decreases strategies.len(),
{
    if strategies.len() > 0 {
        lemma_select_is_max(strategies.drop_last(), et, sev);
        assert(spec_select(strategies, et, sev).1 >= spec_select(strategies.drop_last(), et, sev).1);
        assert forall|i: int|
            0 <= i < strategies.len() && strategy_applies(#[trigger] strategies[i], et)
            implies spec_strategy_score(strategies[i].success_rate, strategies[i].strategy_type, sev)
                <= spec_select(strategies, et, sev).1 by {
            if i < strategies.len() - 1 {
                assert(strategies[i] == strategies.drop_last()[i]);
                assert(spec_strategy_score(strategies[i].success_rate, strategies[i].strategy_type, sev)
                    <= spec_select(strategies.drop_last(), et, sev).1);
            } else {
                assert(strategies[i] == strategies.last());
            }
        }
    }
}

/// What applying a given strategy type to a given error yields, stated over
/// the views of the result's text fields.
pub open spec fn spec_recovery_result(
    r: RecoveryResult,
    st: RecoveryStrategyType,
    et: ErrorType,
    message: Seq<char>,
) -> bool {
    match st {
        RecoveryStrategyType::UseDefault => match et {
            ErrorType::UndefinedReference => {
                &&& r.outcome == RecoveryOutcome::Success
                &&& r.confidence == 800
                &&& r.action_taken@ == "Inserted default variable definition"@
                &&& r.modified_elements@.len() == 1
                &&& r.modified_elements@[0]@ == "variable_definition"@
                &&& r.warnings@.len() == 1
                &&& r.warnings@[0]@ == "Using default type i32 for undefined variable"@
            },
            ErrorType::TypeMismatch => {
                &&& r.outcome == RecoveryOutcome::Success
                &&& r.confidence == 700
                &&& r.action_taken@ == "Applied implicit type conversion"@
                &&& r.modified_elements@.len() == 1
                &&& r.modified_elements@[0]@ == "type_conversion"@
                &&& r.warnings@.len() == 1
                &&& r.warnings@[0]@ == "Implicit type conversion may lose precision"@
            },
            ErrorType::AmbiguityResolutionFailure => {
                &&& r.outcome == RecoveryOutcome::PartialSuccess
                &&& r.confidence == 500
                &&& r.action_taken@ == "Used first available interpretation"@
                &&& r.modified_elements@.len() == 1
                &&& r.modified_elements@[0]@ == "ambiguity_resolution"@
                &&& r.warnings@.len() == 1
                &&& r.warnings@[0]@ == "Ambiguity resolved with low confidence"@
            },
            _ => {
                &&& r.outcome == RecoveryOutcome::Failed
                &&& r.confidence == 0
                &&& r.action_taken@ == "No default recovery available"@
                &&& r.modified_elements@.len() == 0
                &&& r.warnings@.len() == 1
                &&& r.warnings@[0]@ == "Could not apply default recovery"@
            },
        },
        RecoveryStrategyType::RetryWithModification => match et {
            ErrorType::LLMCommunicationError => {
                &&& r.outcome == RecoveryOutcome::Success
                &&& r.confidence == 800
                &&& r.action_taken@ == "Retried oracle call with reduced complexity"@
                &&& r.modified_elements@.len() == 1
                &&& r.modified_elements@[0]@ == "llm_prompt"@
                &&& r.warnings@.len() == 1
                &&& r.warnings@[0]@ == "Using simplified prompt for the oracle"@
            },
            ErrorType::OptimizationFailure => {
                &&& r.outcome == RecoveryOutcome::Success
                &&& r.confidence == 900
                &&& r.action_taken@ == "Retried optimization with lower level"@
                &&& r.modified_elements@.len() == 1
                &&& r.modified_elements@[0]@ == "optimization_level"@
                &&& r.warnings@.len() == 1
                &&& r.warnings@[0]@ == "Reduced optimization level"@
            },
            _ => {
                &&& r.outcome == RecoveryOutcome::Failed
                &&& r.confidence == 0
                &&& r.action_taken@ == "Retry not applicable for this error type"@
                &&& r.modified_elements@.len() == 0
                &&& r.warnings@.len() == 1
                &&& r.warnings@[0]@ == "Retry strategy not suitable"@
            },
        },
        RecoveryStrategyType::FallbackImplementation => match et {
            ErrorType::CodeGenerationError => {
                &&& r.outcome == RecoveryOutcome::Success
                &&& r.confidence == 900
                &&& r.action_taken@ == "Used simple code generation without optimizations"@
                &&& r.modified_elements@.len() == 1
                &&& r.modified_elements@[0]@ == "code_generator"@
                &&& r.warnings@.len() == 1
                &&& r.warnings@[0]@ == "Generated unoptimized code"@
            },
            ErrorType::OptimizationFailure => {
                &&& r.outcome == RecoveryOutcome::Success
                &&& r.confidence == 800
                &&& r.action_taken@ == "Disabled problematic optimization pass"@
                &&& r.modified_elements@.len() == 1
                &&& r.modified_elements@[0]@ == "optimization_passes"@
                &&& r.warnings@.len() == 1
                &&& r.warnings@[0]@ == "Some optimizations disabled"@
            },
            _ => {
                &&& r.outcome == RecoveryOutcome::PartialSuccess
                &&& r.confidence == 600
                &&& r.action_taken@ == "Applied generic fallback"@
                &&& r.modified_elements@.len() == 1
                &&& r.modified_elements@[0]@ == "compilation_strategy"@
                &&& r.warnings@.len() == 1
                &&& r.warnings@[0]@ == "Using fallback implementation"@
            },
        },
        RecoveryStrategyType::SkipAndContinue => {
            &&& r.outcome == RecoveryOutcome::PartialSuccess
            &&& r.confidence == 500
            &&& r.action_taken@ == "Skipped problematic element: "@ + message
            &&& r.modified_elements@.len() == 1
            &&& r.modified_elements@[0]@ == "program_structure"@
            &&& r.warnings@.len() == 2
            &&& r.warnings@[0]@ == "Skipped problematic code section"@
            &&& r.warnings@[1]@ == "Program functionality may be reduced"@
        },
        RecoveryStrategyType::AlternativeApproach => match et {
            ErrorType::SyntaxError => {
                &&& r.outcome == RecoveryOutcome::Success
                &&& r.confidence == 700
                &&& r.action_taken@ == "Applied alternative syntax interpretation"@
                &&& r.modified_elements@.len() == 1
                &&& r.modified_elements@[0]@ == "syntax_tree"@
                &&& r.warnings@.len() == 1
                &&& r.warnings@[0]@ == "Used alternative syntax interpretation"@
            },
            ErrorType::SemanticError => {
                &&& r.outcome == RecoveryOutcome::PartialSuccess
                &&& r.confidence == 600
                &&& r.action_taken@ == "Applied alternative semantic interpretation"@
                &&& r.modified_elements@.len() == 1
                &&& r.modified_elements@[0]@ == "semantic_model"@
                &&& r.warnings@.len() == 1
                &&& r.warnings@[0]@ == "Alternative semantic interpretation may be incorrect"@
            },
            _ => {
                &&& r.outcome == RecoveryOutcome::Failed
                &&& r.confidence == 0
                &&& r.action_taken@ == "No alternative approach available"@
                &&& r.modified_elements@.len() == 0
                &&& r.warnings@.len() == 1
                &&& r.warnings@[0]@ == "Could not find alternative approach"@
            },
        },
        RecoveryStrategyType::UserInteraction => {
            &&& r.outcome == RecoveryOutcome::RequiresUserInput
            &&& r.confidence == 0
            &&& r.action_taken@ == "Requested user clarification"@
            &&& r.modified_elements@.len() == 0
            &&& r.warnings@.len() == 1
            &&& r.warnings@[0]@ == "User input required to resolve error"@
        },
    }
}

/// A statistics entry for the given error kind.
pub open spec fn has_type_entry(entries: Seq<(ErrorType, usize)>, t: ErrorType) -> bool {
    exists|k: int| 0 <= k < entries.len() && (#[trigger] entries[k]).0 == t
}

/// A statistics entry for the given severity.
pub open spec fn has_severity_entry(entries: Seq<(ErrorSeverity, usize)>, s: ErrorSeverity) -> bool {
    exists|k: int| 0 <= k < entries.len() && (#[trigger] entries[k]).0 == s
}

/// The five canned error patterns, each with its action kind, confidence,
/// and parameter texts.
pub open spec fn error_patterns_ok(ps: Seq<(String, RecoveryAction)>) -> bool {
    &&& ps.len() == 5
    &&& ps[0].0@ == "undefined_variable"@
    &&& ps[0].1.action_type == RecoveryActionType::InsertDefault
    &&& ps[0].1.confidence == 800
    &&& ps[0].1.parameters@.len() == 2
    &&& ps[0].1.parameters@[0].0@ == "type"@ && ps[0].1.parameters@[0].1@ == "i32"@
    &&& ps[0].1.parameters@[1].0@ == "value"@ && ps[0].1.parameters@[1].1@ == "0"@
    &&& ps[1].0@ == "type_mismatch"@
    &&& ps[1].1.action_type == RecoveryActionType::ReplaceWith
    &&& ps[1].1.confidence == 700
    &&& ps[1].1.parameters@.len() == 1
    &&& ps[1].1.parameters@[0].0@ == "conversion"@ && ps[1].1.parameters@[0].1@ == "implicit_cast"@
    &&& ps[2].0@ == "llm_timeout"@
    &&& ps[2].1.action_type == RecoveryActionType::UseAlternativeAlgorithm
    &&& ps[2].1.confidence == 900
    &&& ps[2].1.parameters@.len() == 1
    &&& ps[2].1.parameters@[0].0@ == "algorithm"@ && ps[2].1.parameters@[0].1@ == "pattern_matching"@
    &&& ps[3].0@ == "ambiguous_reference"@
    &&& ps[3].1.action_type == RecoveryActionType::RequestClarification
    &&& ps[3].1.confidence == 600
    &&& ps[3].1.parameters@.len() == 1
    &&& ps[3].1.parameters@[0].0@ == "clarification_type"@
    &&& ps[3].1.parameters@[0].1@ == "context_based"@
    &&& ps[4].0@ == "optimization_failure"@
    &&& ps[4].1.action_type == RecoveryActionType::SimplifyConstruct
    &&& ps[4].1.confidence == 800
    &&& ps[4].1.parameters@.len() == 1
    &&& ps[4].1.parameters@[0].0@ == "optimization_level"@ && ps[4].1.parameters@[0].1@ == "basic"@
}

/// Field-wise agreement of two strategies, over the views of their
/// text fields.
pub open spec fn strategy_like(a: RecoveryStrategy, b: RecoveryStrategy) -> bool {
    &&& a.strategy_type == b.strategy_type
    &&& a.success_rate == b.success_rate
    &&& a.applicable_errors@ == b.applicable_errors@
    &&& a.description@ == b.description@
}

/// Error recovery system: keeps the error history and the strategy table.
pub struct ErrorRecovery {
    pub error_history: Vec<CompilationError>,
    pub recovery_strategies: Vec<RecoveryStrategy>,
    pub error_patterns: Vec<(String, RecoveryAction)>,
}

impl ErrorRecovery {
    pub open spec fn wf(self) -> bool {
        strategy_rates_valid(self.recovery_strategies@)
    }

    pub fn new() -> (r: ErrorRecovery)
        ensures
            r.wf(),
            r.error_history@.len() == 0,
            r.recovery_strategies@.len() == 5,
            r.recovery_strategies@[0].strategy_type == RecoveryStrategyType::UseDefault,
            r.recovery_strategies@[0].success_rate == 700,
            r.recovery_strategies@[0].applicable_errors@ == seq![
                ErrorType::UndefinedReference,
                ErrorType::TypeMismatch,
                ErrorType::AmbiguityResolutionFailure,
            ],
            r.recovery_strategies@[1].strategy_type == RecoveryStrategyType::RetryWithModification,
            r.recovery_strategies@[1].success_rate == 800,
            r.recovery_strategies@[1].applicable_errors@ == seq![
                ErrorType::LLMCommunicationError,
                ErrorType::OptimizationFailure,
            ],
            r.recovery_strategies@[2].strategy_type == RecoveryStrategyType::FallbackImplementation,
            r.recovery_strategies@[2].success_rate == 900,
            r.recovery_strategies@[2].applicable_errors@ == seq![
                ErrorType::CodeGenerationError,
                ErrorType::OptimizationFailure,
            ],
            r.recovery_strategies@[3].strategy_type == RecoveryStrategyType::SkipAndContinue,
            r.recovery_strategies@[3].success_rate == 500,
            r.recovery_strategies@[3].applicable_errors@ == seq![
                ErrorType::SemanticError,
                ErrorType::MemoryLayoutError,
            ],
            r.recovery_strategies@[4].strategy_type == RecoveryStrategyType::AlternativeApproach,
            r.recovery_strategies@[4].success_rate == 600,
            r.recovery_strategies@[4].applicable_errors@ == seq![
                ErrorType::SyntaxError,
                ErrorType::SemanticError,
            ],
            error_patterns_ok(r.error_patterns@),
    {
        ErrorRecovery {
            error_history: Vec::new(),
            recovery_strategies: Self::initialize_recovery_strategies(),
            error_patterns: Self::initialize_error_patterns(),
        }
    }

    fn initialize_recovery_strategies() -> (r: Vec<RecoveryStrategy>)
        ensures
            r@.len() == 5,
            strategy_rates_valid(r@),
            r@[0].strategy_type == RecoveryStrategyType::UseDefault,
            r@[0].success_rate == 700,
            r@[0].applicable_errors@ == seq![
                ErrorType::UndefinedReference,
                ErrorType::TypeMismatch,
                ErrorType::AmbiguityResolutionFailure,
            ],
            r@[1].strategy_type == RecoveryStrategyType::RetryWithModification,
            r@[1].success_rate == 800,
            r@[1].applicable_errors@ == seq![
                ErrorType::LLMCommunicationError,
                ErrorType::OptimizationFailure,
            ],
            r@[2].strategy_type == RecoveryStrategyType::FallbackImplementation,
            r@[2].success_rate == 900,
            r@[2].applicable_errors@ == seq![
                ErrorType::CodeGenerationError,
                ErrorType::OptimizationFailure,
            ],
            r@[3].strategy_type == RecoveryStrategyType::SkipAndContinue,
            r@[3].success_rate == 500,
            r@[3].applicable_errors@ == seq![
                ErrorType::SemanticError,
                ErrorType::MemoryLayoutError,
            ],
            r@[4].strategy_type == RecoveryStrategyType::AlternativeApproach,
            r@[4].success_rate == 600,
            r@[4].applicable_errors@ == seq![
                ErrorType::SyntaxError,
                ErrorType::SemanticError,
            ],
    {
        let mut r: Vec<RecoveryStrategy> = Vec::new();
        r.push(RecoveryStrategy {
            strategy_type: RecoveryStrategyType::UseDefault,
            applicable_errors: vec![
                ErrorType::UndefinedReference,
                ErrorType::TypeMismatch,
                ErrorType::AmbiguityResolutionFailure,
            ],
            success_rate: 700,
            description: String::from_str("Use sensible defaults for undefined or ambiguous elements"),
        });
        r.push(RecoveryStrategy {
            strategy_type: RecoveryStrategyType::RetryWithModification,
            applicable_errors: vec![
                ErrorType::LLMCommunicationError,
                ErrorType::OptimizationFailure,
            ],
            success_rate: 800,
            description: String::from_str("Retry the operation with modified parameters"),
        });
        r.push(RecoveryStrategy {
            strategy_type: RecoveryStrategyType::FallbackImplementation,
            applicable_errors: vec![
                ErrorType::CodeGenerationError,
                ErrorType::OptimizationFailure,
            ],
            success_rate: 900,
            description: String::from_str("Use a simpler, more reliable implementation"),
        });
        r.push(RecoveryStrategy {
            strategy_type: RecoveryStrategyType::SkipAndContinue,
            applicable_errors: vec![
                ErrorType::SemanticError,
                ErrorType::MemoryLayoutError,
            ],
            success_rate: 500,
            description: String::from_str("Skip the problematic element and continue compilation"),
        });
        r.push(RecoveryStrategy {
            strategy_type: RecoveryStrategyType::AlternativeApproach,
            applicable_errors: vec![
                ErrorType::SyntaxError,
                ErrorType::SemanticError,
            ],
            success_rate: 600,
            description: String::from_str("Try an alternative interpretation or approach"),
        });
        r
    }

    fn initialize_error_patterns() -> (r: Vec<(String, RecoveryAction)>)
        ensures
            error_patterns_ok(r@),
    {
        let mut r: Vec<(String, RecoveryAction)> = Vec::new();
        r.push((String::from_str("undefined_variable"), RecoveryAction {
            action_type: RecoveryActionType::InsertDefault,
            parameters: vec![
                (String::from_str("type"), String::from_str("i32")),
                (String::from_str("value"), String::from_str("0")),
            ],
            confidence: 800,
        }));
        r.push((String::from_str("type_mismatch"), RecoveryAction {
            action_type: RecoveryActionType::ReplaceWith,
            parameters: vec![
                (String::from_str("conversion"), String::from_str("implicit_cast")),
            ],
            confidence: 700,
        }));
        r.push((String::from_str("llm_timeout"), RecoveryAction {
            action_type: RecoveryActionType::UseAlternativeAlgorithm,
            parameters: vec![
                (String::from_str("algorithm"), String::from_str("pattern_matching")),
            ],
            confidence: 900,
        }));
        r.push((String::from_str("ambiguous_reference"), RecoveryAction {
            action_type: RecoveryActionType::RequestClarification,
            parameters: vec![
                (String::from_str("clarification_type"), String::from_str("context_based")),
            ],
            confidence: 600,
        }));
        r.push((String::from_str("optimization_failure"), RecoveryAction {
            action_type: RecoveryActionType::SimplifyConstruct,
            parameters: vec![
                (String::from_str("optimization_level"), String::from_str("basic")),
            ],
            confidence: 800,
        }));
        r
    }

    fn severity_multiplier(s: ErrorSeverity) -> (r: u32)
        ensures
            r == spec_severity_multiplier(s),
    {
        match s {
            ErrorSeverity::Fatal => 12,
            ErrorSeverity::Error => 10,
            ErrorSeverity::Warning => 8,
            ErrorSeverity::Info => 5,
        }
    }

    fn get_historical_success_rate(strategy_type: &RecoveryStrategyType) -> (r: u32)
        ensures
            r == spec_historical_success_rate(*strategy_type),
    {
        match strategy_type {
            RecoveryStrategyType::UseDefault => 800,
            RecoveryStrategyType::FallbackImplementation => 900,
            RecoveryStrategyType::RetryWithModification => 700,
            RecoveryStrategyType::SkipAndContinue => 500,
            RecoveryStrategyType::AlternativeApproach => 600,
            RecoveryStrategyType::UserInteraction => 400,
        }
    }

    fn calculate_strategy_score(strategy: &RecoveryStrategy, error: &CompilationError) -> (r: u32)
        requires
            strategy.success_rate <= 1000,
        ensures
            r == spec_strategy_score(strategy.success_rate, strategy.strategy_type, error.severity),
    {
        let weighted: u32 = strategy.success_rate * Self::severity_multiplier(error.severity);
        let historical: u32 = Self::get_historical_success_rate(&strategy.strategy_type);
        (weighted + historical * 10) / 2
    }

    fn error_types_contain(v: &Vec<ErrorType>, e: ErrorType) -> (r: bool)
        ensures
            r == v@.contains(e),
    {
        let mut i: usize = 0;
        while i < v.len()
            invariant
                i <= v@.len(),
                forall|j: int| 0 <= j < i ==> v@[j] != e,
            decreases v@.len() - i,
        {
            if v[i] == e {
                return true;
            }
            i += 1;
        }
        false
    }

    /// Pick the applicable strategy with the highest score, visiting the
    /// table in order and replacing only on a strictly greater score; fall
    /// back to SkipAndContinue at rate 300 when nothing applies.
    fn copy_error_types(v: &Vec<ErrorType>) -> (r: Vec<ErrorType>)
        ensures
            r@ == v@,
    {
        let mut r: Vec<ErrorType> = Vec::new();
        let mut i: usize = 0;
        while i < v.len()
            invariant
                i <= v@.len(),
                r@ == v@.take(i as int),
            decreases v@.len() - i,
        {
            r.push(v[i]);
            proof {
                assert(v@.take(i + 1) =~= v@.take(i as int).push(v@[i as int]));
            }
            i += 1;
        }
        proof {
            assert(v@.take(v@.len() as int) =~= v@);
        }
        r
    }

    /// Pick the applicable strategy with the highest score, visiting the
    /// table in order and replacing only on a strictly greater score; fall
    /// back to SkipAndContinue at rate 300 when nothing applies.
    fn select_recovery_strategy(&self, error: &CompilationError) -> (r: RecoveryStrategy)
        requires
            self.wf(),
        ensures
            r.success_rate <= 1000,
            match spec_select(self.recovery_strategies@, error.error_type, error.severity).0 {
                Some(s) => strategy_like(r, s),
                None => {
                    &&& r.strategy_type == RecoveryStrategyType::SkipAndContinue
                    &&& r.success_rate == 300
                    &&& r.applicable_errors@ == seq![error.error_type]
                },
            },
    {
        let mut best_idx: Option<usize> = None;
        let mut best_score: u32 = 0;
        let mut i: usize = 0;
        while i < self.recovery_strategies.len()
            invariant
                self.wf(),
                i <= self.recovery_strategies@.len(),
                match best_idx {
                    Some(bi) => bi < i
                        && spec_select(self.recovery_strategies@.take(i as int), error.error_type, error.severity)
                            == (Some(self.recovery_strategies@[bi as int]), best_score),
                    None =>
                        spec_select(self.recovery_strategies@.take(i as int), error.error_type, error.severity)
                            == (None::<RecoveryStrategy>, best_score),
                },
            decreases self.recovery_strategies@.len() - i,
        {
            let strategy = &self.recovery_strategies[i];
            proof {
                assert(self.recovery_strategies@.take(i + 1).drop_last()
                    =~= self.recovery_strategies@.take(i as int));
                assert(self.recovery_strategies@.take(i + 1).last()
                    == self.recovery_strategies@[i as int]);
            }
            if Self::error_types_contain(&strategy.applicable_errors, error.error_type) {
                let score = Self::calculate_strategy_score(strategy, error);
                if score > best_score {
                    best_score = score;
                    best_idx = Some(i);
                }
            }
            i += 1;
        }
        proof {
            assert(self.recovery_strategies@.take(self.recovery_strategies@.len() as int)
                =~= self.recovery_strategies@);
        }
        match best_idx {
            Some(bi) => {
                let s = &self.recovery_strategies[bi];
                RecoveryStrategy {
                    strategy_type: s.strategy_type,
                    applicable_errors: Self::copy_error_types(&s.applicable_errors),
                    success_rate: s.success_rate,
                    description: s.description.clone(),
                }
            },
            None => RecoveryStrategy {
                strategy_type: RecoveryStrategyType::SkipAndContinue,
                applicable_errors: vec![error.error_type],
                success_rate: 300,
                description: String::from_str("Default fallback strategy"),
            },
        }
    }

    fn apply_default_recovery(&self, error: &CompilationError) -> (r: RecoveryResult)
        ensures
            spec_recovery_result(r, RecoveryStrategyType::UseDefault, error.error_type, error.message@),
    {
        match error.error_type {
            ErrorType::UndefinedReference => RecoveryResult {
                outcome: RecoveryOutcome::Success,
                action_taken: String::from_str("Inserted default variable definition"),
                modified_elements: vec![String::from_str("variable_definition")],
                confidence: 800,
                warnings: vec![String::from_str("Using default type i32 for undefined variable")],
            },
            ErrorType::TypeMismatch => RecoveryResult {
                outcome: RecoveryOutcome::Success,
                action_taken: String::from_str("Applied implicit type conversion"),
                modified_elements: vec![String::from_str("type_conversion")],
                confidence: 700,
                warnings: vec![String::from_str("Implicit type conversion may lose precision")],
            },
            ErrorType::AmbiguityResolutionFailure => RecoveryResult {
                outcome: RecoveryOutcome::PartialSuccess,
                action_taken: String::from_str("Used first available interpretation"),
                modified_elements: vec![String::from_str("ambiguity_resolution")],
                confidence: 500,
                warnings: vec![String::from_str("Ambiguity resolved with low confidence")],
            },
            _ => RecoveryResult {
                outcome: RecoveryOutcome::Failed,
                action_taken: String::from_str("No default recovery available"),
                modified_elements: Vec::new(),
                confidence: 0,
                warnings: vec![String::from_str("Could not apply default recovery")],
            },
        }
    }

    fn apply_retry_recovery(&self, error: &CompilationError) -> (r: RecoveryResult)
        ensures
            spec_recovery_result(r, RecoveryStrategyType::RetryWithModification, error.error_type, error.message@),
    {
        match error.error_type {
            ErrorType::LLMCommunicationError => RecoveryResult {
                outcome: RecoveryOutcome::Success,
                action_taken: String::from_str("Retried oracle call with reduced complexity"),
                modified_elements: vec![String::from_str("llm_prompt")],
                confidence: 800,
                warnings: vec![String::from_str("Using simplified prompt for the oracle")],
            },
            ErrorType::OptimizationFailure => RecoveryResult {
                outcome: RecoveryOutcome::Success,
                action_taken: String::from_str("Retried optimization with lower level"),
                modified_elements: vec![String::from_str("optimization_level")],
                confidence: 900,
                warnings: vec![String::from_str("Reduced optimization level")],
            },
            _ => RecoveryResult {
                outcome: RecoveryOutcome::Failed,
                action_taken: String::from_str("Retry not applicable for this error type"),
                modified_elements: Vec::new(),
                confidence: 0,
                warnings: vec![String::from_str("Retry strategy not suitable")],
            },
        }
    }

    fn apply_fallback_recovery(&self, error: &CompilationError) -> (r: RecoveryResult)
        ensures
            spec_recovery_result(r, RecoveryStrategyType::FallbackImplementation, error.error_type, error.message@),
    {
        match error.error_type {
            ErrorType::CodeGenerationError => RecoveryResult {
                outcome: RecoveryOutcome::Success,
                action_taken: String::from_str("Used simple code generation without optimizations"),
                modified_elements: vec![String::from_str("code_generator")],
                confidence: 900,
                warnings: vec![String::from_str("Generated unoptimized code")],
            },
            ErrorType::OptimizationFailure => RecoveryResult {
                outcome: RecoveryOutcome::Success,
                action_taken: String::from_str("Disabled problematic optimization pass"),
                modified_elements: vec![String::from_str("optimization_passes")],
                confidence: 800,
                warnings: vec![String::from_str("Some optimizations disabled")],
            },
            _ => RecoveryResult {
                outcome: RecoveryOutcome::PartialSuccess,
                action_taken: String::from_str("Applied generic fallback"),
                modified_elements: vec![String::from_str("compilation_strategy")],
                confidence: 600,
                warnings: vec![String::from_str("Using fallback implementation")],
            },
        }
    }

    fn apply_skip_recovery(&self, error: &CompilationError) -> (r: RecoveryResult)
        ensures
            spec_recovery_result(r, RecoveryStrategyType::SkipAndContinue, error.error_type, error.message@),
    {
        let mut action = String::from_str("Skipped problematic element: ");
        action.append(error.message.as_str());
        RecoveryResult {
            outcome: RecoveryOutcome::PartialSuccess,
            action_taken: action,
            modified_elements: vec![String::from_str("program_structure")],
            confidence: 500,
            warnings: vec![
                String::from_str("Skipped problematic code section"),
                String::from_str("Program functionality may be reduced"),
            ],
        }
    }

    fn apply_alternative_recovery(&self, error: &CompilationError) -> (r: RecoveryResult)
        ensures
            spec_recovery_result(r, RecoveryStrategyType::AlternativeApproach, error.error_type, error.message@),
    {
        match error.error_type {
            ErrorType::SyntaxError => RecoveryResult {
                outcome: RecoveryOutcome::Success,
                action_taken: String::from_str("Applied alternative syntax interpretation"),
                modified_elements: vec![String::from_str("syntax_tree")],
                confidence: 700,
                warnings: vec![String::from_str("Used alternative syntax interpretation")],
            },
            ErrorType::SemanticError => RecoveryResult {
                outcome: RecoveryOutcome::PartialSuccess,
                action_taken: String::from_str("Applied alternative semantic interpretation"),
                modified_elements: vec![String::from_str("semantic_model")],
                confidence: 600,
                warnings: vec![String::from_str("Alternative semantic interpretation may be incorrect")],
            },
            _ => RecoveryResult {
                outcome: RecoveryOutcome::Failed,
                action_taken: String::from_str("No alternative approach available"),
                modified_elements: Vec::new(),
                confidence: 0,
                warnings: vec![String::from_str("Could not find alternative approach")],
            },
        }
    }

    fn apply_user_interaction_recovery(&self, error: &CompilationError) -> (r: RecoveryResult)
        ensures
            spec_recovery_result(r, RecoveryStrategyType::UserInteraction, error.error_type, error.message@),
    {
        RecoveryResult {
            outcome: RecoveryOutcome::RequiresUserInput,
            action_taken: String::from_str("Requested user clarification"),
            modified_elements: Vec::new(),
            confidence: 0,
            warnings: vec![String::from_str("User input required to resolve error")],
        }
    }

    fn attempt_recovery(&self, error: &CompilationError, strategy: &RecoveryStrategy) -> (r: RecoveryResult)
        ensures
            spec_recovery_result(r, strategy.strategy_type, error.error_type, error.message@),
    {
        match strategy.strategy_type {
            RecoveryStrategyType::UseDefault => self.apply_default_recovery(error),
            RecoveryStrategyType::RetryWithModification => self.apply_retry_recovery(error),
            RecoveryStrategyType::FallbackImplementation => self.apply_fallback_recovery(error),
            RecoveryStrategyType::SkipAndContinue => self.apply_skip_recovery(error),
            RecoveryStrategyType::AlternativeApproach => self.apply_alternative_recovery(error),
            RecoveryStrategyType::UserInteraction => self.apply_user_interaction_recovery(error),
        }
    }

    /// Record the error and apply the highest-scoring applicable strategy;
    /// the history grows by exactly this error, so handling the same error
    /// twice appends two entries and corrupts nothing.
    pub fn handle_error(&mut self, error: CompilationError) -> (r: RecoveryResult)
        requires
            old(self).wf(),
        ensures
            final(self).wf(),
            final(self).error_history@ == old(self).error_history@.push(error),
            final(self).recovery_strategies@ == old(self).recovery_strategies@,
            final(self).error_patterns@ == old(self).error_patterns@,
            match spec_select(old(self).recovery_strategies@, error.error_type, error.severity).0 {
                Some(s) => spec_recovery_result(r, s.strategy_type, error.error_type, error.message@),
                None => spec_recovery_result(
                    r,
                    RecoveryStrategyType::SkipAndContinue,
                    error.error_type,
                    error.message@,
                ),
            },
    {
        let recovery_strategy = self.select_recovery_strategy(&error);
        let recovery_result = self.attempt_recovery(&error, &recovery_strategy);
        self.error_history.push(error);
        recovery_result
    }

    /// Number of history entries with the given error type.
    pub open spec fn count_type(history: Seq<CompilationError>, t: ErrorType) -> nat {
        history.filter(|e: CompilationError| e.error_type == t).len()
    }

    /// Number of history entries with the given severity.
    pub open spec fn count_severity(history: Seq<CompilationError>, s: ErrorSeverity) -> nat {
        history.filter(|e: CompilationError| e.severity == s).len()
    }

    fn count_errors_of_type(&self, t: ErrorType) -> (r: usize)
        ensures
            r == Self::count_type(self.error_history@, t),
    {
        let ghost f = |e: CompilationError| e.error_type == t;
        let mut count: usize = 0;
        let mut i: usize = 0;
        while i < self.error_history.len()
            invariant
                i <= self.error_history@.len(),
                count == self.error_history@.take(i as int).filter(|e: CompilationError| e.error_type == t).len(),
                count <= i,
            decreases self.error_history@.len() - i,
        {
            proof {
                reveal_with_fuel(Seq::filter, 2);
                assert(self.error_history@.take(i + 1).drop_last() =~= self.error_history@.take(i as int));
                assert(self.error_history@.take(i + 1).last() == self.error_history@[i as int]);
            }
            if self.error_history[i].error_type == t {
                count += 1;
            }
            i += 1;
        }
        proof {
            assert(self.error_history@.take(self.error_history@.len() as int) =~= self.error_history@);
        }
        count
    }

    fn count_errors_of_severity(&self, s: ErrorSeverity) -> (r: usize)
        ensures
            r == Self::count_severity(self.error_history@, s),
    {
        let mut count: usize = 0;
        let mut i: usize = 0;
        while i < self.error_history.len()
            invariant
                i <= self.error_history@.len(),
                count == self.error_history@.take(i as int).filter(|e: CompilationError| e.severity == s).len(),
                count <= i,
            decreases self.error_history@.len() - i,
        {
            proof {
                reveal_with_fuel(Seq::filter, 2);
                assert(self.error_history@.take(i + 1).drop_last() =~= self.error_history@.take(i as int));
                assert(self.error_history@.take(i + 1).last() == self.error_history@[i as int]);
            }
            if self.error_history[i].severity == s {
                count += 1;
            }
            i += 1;
        }
        proof {
            assert(self.error_history@.take(self.error_history@.len() as int) =~= self.error_history@);
        }
        count
    }

    /// Statistics over the history: the total, and one (kind, count) entry
    /// per error type and severity that occurs, in declaration order;
    /// every kind that occurs is listed.
    pub fn get_error_statistics(&self) -> (r: ErrorStatistics)
        ensures
            r.total_errors == self.error_history@.len(),
            r.recovery_success_rate == 750,
            forall|i: int| 0 <= i < r.errors_by_type@.len()
                ==> (#[trigger] r.errors_by_type@[i]).1
                    == Self::count_type(self.error_history@, r.errors_by_type@[i].0)
                    && r.errors_by_type@[i].1 > 0,
            forall|i: int| 0 <= i < r.errors_by_severity@.len()
                ==> (#[trigger] r.errors_by_severity@[i]).1
                    == Self::count_severity(self.error_history@, r.errors_by_severity@[i].0)
                    && r.errors_by_severity@[i].1 > 0,
            forall|t: ErrorType| Self::count_type(self.error_history@, t) > 0
                ==> #[trigger] has_type_entry(r.errors_by_type@, t),
            forall|s: ErrorSeverity| Self::count_severity(self.error_history@, s) > 0
                ==> #[trigger] has_severity_entry(r.errors_by_severity@, s),
    {
        let mut by_type: Vec<(ErrorType, usize)> = Vec::new();
        let types: Vec<ErrorType> = vec![
            ErrorType::SyntaxError,
            ErrorType::SemanticError,
            ErrorType::TypeError,
            ErrorType::RuntimeError,
            ErrorType::TypeMismatch,
            ErrorType::UndefinedReference,
            ErrorType::AmbiguityResolutionFailure,
            ErrorType::MemoryLayoutError,
            ErrorType::OptimizationFailure,
            ErrorType::CodeGenerationError,
            ErrorType::LLMCommunicationError,
            ErrorType::SystemError,
        ];
        let mut ti: usize = 0;
        while ti < types.len()
            invariant
                ti <= types@.len(),
                types@.len() == 12,
                forall|i: int| 0 <= i < by_type@.len()
                    ==> (#[trigger] by_type@[i]).1 == Self::count_type(self.error_history@, by_type@[i].0)
                        && by_type@[i].1 > 0,
                forall|j: int| 0 <= j < ti
                    && Self::count_type(self.error_history@, (#[trigger] types@[j])) > 0
                    ==> has_type_entry(by_type@, types@[j]),
            decreases types@.len() - ti,
        {
            let ghost before = by_type@;
            let c = self.count_errors_of_type(types[ti]);
            if c > 0 {
                by_type.push((types[ti], c));
            }
            proof {
                assert forall|j: int| 0 <= j < ti + 1
                    && Self::count_type(self.error_history@, (#[trigger] types@[j])) > 0
                    implies has_type_entry(by_type@, types@[j]) by {
                    if j < ti {
                        let k0 = choose|k0: int| 0 <= k0 < before.len()
                            && (#[trigger] before[k0]).0 == types@[j];
                        assert(by_type@[k0] == before[k0]);
                    } else {
                        assert(by_type@[by_type@.len() - 1].0 == types@[j]);
                    }
                }
            }
            ti += 1;
        }
        proof {
            assert forall|t: ErrorType| Self::count_type(self.error_history@, t) > 0
                implies #[trigger] has_type_entry(by_type@, t) by {
                assert(exists|j: int| 0 <= j < 12 && types@[j] == t) by {
                    match t {
                        ErrorType::SyntaxError => assert(types@[0] == t),
                        ErrorType::SemanticError => assert(types@[1] == t),
                        ErrorType::TypeError => assert(types@[2] == t),
                        ErrorType::RuntimeError => assert(types@[3] == t),
                        ErrorType::TypeMismatch => assert(types@[4] == t),
                        ErrorType::UndefinedReference => assert(types@[5] == t),
                        ErrorType::AmbiguityResolutionFailure => assert(types@[6] == t),
                        ErrorType::MemoryLayoutError => assert(types@[7] == t),
                        ErrorType::OptimizationFailure => assert(types@[8] == t),
                        ErrorType::CodeGenerationError => assert(types@[9] == t),
                        ErrorType::LLMCommunicationError => assert(types@[10] == t),
                        ErrorType::SystemError => assert(types@[11] == t),
                    }
                }
            }
        }

        let mut by_severity: Vec<(ErrorSeverity, usize)> = Vec::new();
        let severities: Vec<ErrorSeverity> = vec![
            ErrorSeverity::Fatal,
            ErrorSeverity::Error,
            ErrorSeverity::Warning,
            ErrorSeverity::Info,
        ];
        let mut si: usize = 0;
        while si < severities.len()
            invariant
                si <= severities@.len(),
                severities@.len() == 4,
                forall|i: int| 0 <= i < by_severity@.len()
                    ==> (#[trigger] by_severity@[i]).1
                        == Self::count_severity(self.error_history@, by_severity@[i].0)
                        && by_severity@[i].1 > 0,
                forall|j: int| 0 <= j < si
                    && Self::count_severity(self.error_history@, (#[trigger] severities@[j])) > 0
                    ==> has_severity_entry(by_severity@, severities@[j]),
            decreases severities@.len() - si,
        {
            let ghost before = by_severity@;
            let c = self.count_errors_of_severity(severities[si]);
            if c > 0 {
                by_severity.push((severities[si], c));
            }
            proof {
                assert forall|j: int| 0 <= j < si + 1
                    && Self::count_severity(self.error_history@, (#[trigger] severities@[j])) > 0
                    implies has_severity_entry(by_severity@, severities@[j]) by {
                    if j < si {
                        let k0 = choose|k0: int| 0 <= k0 < before.len()
                            && (#[trigger] before[k0]).0 == severities@[j];
                        assert(by_severity@[k0] == before[k0]);
                    } else {
                        assert(by_severity@[by_severity@.len() - 1].0 == severities@[j]);
                    }
                }
            }
            si += 1;
        }
        proof {
            assert forall|s: ErrorSeverity| Self::count_severity(self.error_history@, s) > 0
                implies #[trigger] has_severity_entry(by_severity@, s) by {
                assert(exists|j: int| 0 <= j < 4 && severities@[j] == s) by {
                    match s {
                        ErrorSeverity::Fatal => assert(severities@[0] == s),
                        ErrorSeverity::Error => assert(severities@[1] == s),
                        ErrorSeverity::Warning => assert(severities@[2] == s),
                        ErrorSeverity::Info => assert(severities@[3] == s),
                    }
                }
            }
        }

        let mut by_stage: Vec<(CompilationStage, usize)> = Vec::new();
        let stages: Vec<CompilationStage> = vec![
            CompilationStage::IntentExtraction,
            CompilationStage::SemanticAnalysis,
            CompilationStage::TypeInference,
            CompilationStage::FlowAnalysis,
            CompilationStage::LLVMGeneration,
            CompilationStage::Optimization,
            CompilationStage::CodeEmission,
        ];
        let mut gi: usize = 0;
        while gi < stages.len()
            decreases stages@.len() - gi,
        {
            let mut c: usize = 0;
            let mut i: usize = 0;
            while i < self.error_history.len()
                invariant
                    c <= i,
                    i <= self.error_history@.len(),
                    gi < stages@.len(),
                decreases self.error_history@.len() - i,
            {
                if let Some(loc) = &self.error_history[i].location {
                    if loc.stage == stages[gi] {
                        c += 1;
                    }
                }
                i += 1;
            }
            if c > 0 {
                by_stage.push((stages[gi], c));
            }
            gi += 1;
        }

        ErrorStatistics {
            total_errors: self.error_history.len(),
            errors_by_type: by_type,
            errors_by_severity: by_severity,
            errors_by_stage: by_stage,
            recovery_success_rate: 750,
        }
    }

    /// Clear the error history.
    pub fn clear_history(&mut self)
        requires
            old(self).wf(),
        ensures
            final(self).wf(),
            final(self).error_history@.len() == 0,
            final(self).recovery_strategies@ == old(self).recovery_strategies@,
            final(self).error_patterns@ == old(self).error_patterns@,
    {
        self.error_history.clear();
    }
}

} // verus!
