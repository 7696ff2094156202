//! Ambiguity resolution: a cascade of rule-based matching, contextual
//! inference, oracle reasoning, and a default assumption; the first tier
//! that succeeds resolves the ambiguity, and applying a resolution rewrites
//! the intent in place.

use vstd::prelude::*;
use vstd::string::StringExecFns;
use crate::text::{pattern_matches, regex_match, replace_all, replaced, str_contains, spec_find};
use crate::json::{get_string_field, get_field_text, get_array_elems, millis_of_number,
    json_string_field, json_field, spec_millis_of_number};
use crate::intent_extractor::{Ambiguity, ProgramIntent, Operation, OperationType, ArithmeticOp,
    DataStructure, DataType};

verus! {

#[derive(Debug, Clone, Copy, PartialEq, Eq, Structural)]
pub enum ResolutionStrategy {
    ContextualInference,
    TypeBasedDisambiguation,
    PrecedenceRules,
    UserInteraction,
    DefaultAssumption,
    LLMReasoning,
}

#[derive(Debug, Clone, Copy, PartialEq, Eq, Structural)]
pub enum ContextFactorType {
    PreviousOperations,
    VariableTypes,
    DomainKnowledge,
    SyntacticPatterns,
    SemanticConstraints,
    UserIntent,
}

/// A weighted factor behind a resolution; `weight` is in thousandths.
#[derive(Debug, Clone)]
pub struct ContextFactor {
    pub factor_type: ContextFactorType,
    pub description: String,
    pub weight: u32,
}

/// A resolved ambiguity; `confidence` is in thousandths.
#[derive(Debug, Clone)]
pub struct ResolvedAmbiguity {
    pub original_ambiguity: Ambiguity,
    pub chosen_interpretation: String,
    pub confidence: u32,
    pub reasoning: String,
    pub context_factors: Vec<ContextFactor>,
}

/// The outcome of a resolution pass over an intent's ambiguity set.
#[derive(Debug, Clone)]
pub struct ResolutionResult {
    pub resolved_ambiguities: Vec<ResolvedAmbiguity>,
    pub remaining_ambiguities: Vec<Ambiguity>,
    pub confidence_score: u32,
    pub resolution_strategy: ResolutionStrategy,
}

#[derive(Debug, Clone, Copy, PartialEq, Eq, Structural)]
pub enum RuleType {
    PronounReference,
    OperationDisambiguation,
    TypeInference,
    ScopeResolution,
    ControlFlowClarification,
}

/// One resolution rule: a pattern tried against the ambiguity's context and
/// description, and the interpretation it resolves to; `confidence` is in
/// thousandths.
#[derive(Debug, Clone)]
pub struct ResolutionRule {
    pub rule_type: RuleType,
    pub pattern: String,
    pub resolution: String,
    pub confidence: u32,
}

/// What the resolver reads from the intent before resolving.
struct ResolutionContext {
    variables_in_scope: Vec<String>,
    recent_operations: Vec<String>,
    has_integer_types: bool,
    has_float_types: bool,
    control_flow_state: String,
}

/// Whether a rule fires on an ambiguity: its pattern matches the
/// ambiguity's context or its description.
pub open spec fn rule_fires(pattern: Seq<char>, amb: Ambiguity) -> bool {
    regex_match(pattern, amb.context@) || regex_match(pattern, amb.description@)
}

/// The first rule that fires, if any.
pub open spec fn first_firing_rule(rules: Seq<ResolutionRule>, amb: Ambiguity, from: int) -> Option<int>
    decreases rules.len() - from,
{
    if from < 0 || from >= rules.len() {
        None
    } else if rule_fires(rules[from].pattern@, amb) {
        Some(from)
    } else {
        first_firing_rule(rules, amb, from + 1)
    }
}

pub open spec fn rule_name(t: RuleType) -> Seq<char> {
    match t {
        RuleType::PronounReference => "PronounReference"@,
        RuleType::OperationDisambiguation => "OperationDisambiguation"@,
        RuleType::TypeInference => "TypeInference"@,
        RuleType::ScopeResolution => "ScopeResolution"@,
        RuleType::ControlFlowClarification => "ControlFlowClarification"@,
    }
}

/// Agreement of two ambiguities over the views of their fields.
pub open spec fn amb_agrees(a: Ambiguity, b: Ambiguity) -> bool {
    &&& a.id@ == b.id@
    &&& a.description@ == b.description@
    &&& a.possible_interpretations.deep_view() == b.possible_interpretations.deep_view()
    &&& a.context@ == b.context@
    &&& a.confidence_scores@ == b.confidence_scores@
}

/// A rule-tier resolution of `amb` by the rule at index `i`.
pub open spec fn is_rule_resolution(r: ResolvedAmbiguity, rules: Seq<ResolutionRule>, amb: Ambiguity, i: int) -> bool {
    &&& amb_agrees(r.original_ambiguity, amb)
    &&& r.chosen_interpretation@ == rules[i].resolution@
    &&& r.confidence == rules[i].confidence
    &&& r.reasoning@ == "Applied rule: "@ + rule_name(rules[i].rule_type)
    &&& r.context_factors@.len() == 1
    &&& r.context_factors@[0].factor_type == ContextFactorType::SyntacticPatterns
    &&& r.context_factors@[0].description@ == "Matched pattern: "@ + rules[i].pattern@
    &&& r.context_factors@[0].weight == rules[i].confidence
}

/// The contextual tier applies to pronoun ambiguities with a variable in
/// scope, and to operation ambiguities in an all-float context.
pub open spec fn pronoun_ctx_applies(amb: Ambiguity, vars: Seq<Seq<char>>) -> bool {
    spec_find(amb.description@, "pronoun"@, 0) is Some && vars.len() > 0
}

pub open spec fn operation_ctx_applies(amb: Ambiguity, has_int: bool, has_float: bool) -> bool {
    spec_find(amb.description@, "operation"@, 0) is Some && has_float && !has_int
}

pub open spec fn is_pronoun_ctx_resolution(r: ResolvedAmbiguity, amb: Ambiguity, vars: Seq<Seq<char>>) -> bool {
    &&& amb_agrees(r.original_ambiguity, amb)
    &&& r.chosen_interpretation@ == vars.last()
    &&& r.confidence == 750
    &&& r.reasoning@ == "Resolved pronoun to most recently mentioned variable"@
    &&& r.context_factors@.len() == 1
    &&& r.context_factors@[0].factor_type == ContextFactorType::PreviousOperations
    &&& r.context_factors@[0].description@ == "Most recent variable: "@ + vars.last()
    &&& r.context_factors@[0].weight == 800
}

pub open spec fn is_operation_ctx_resolution(r: ResolvedAmbiguity, amb: Ambiguity) -> bool {
    &&& amb_agrees(r.original_ambiguity, amb)
    &&& r.chosen_interpretation@ == "floating_point_operation"@
    &&& r.confidence == 800
    &&& r.reasoning@ == "Context contains only floating-point types"@
    &&& r.context_factors@.len() == 1
    &&& r.context_factors@[0].factor_type == ContextFactorType::VariableTypes
    &&& r.context_factors@[0].description@ == "All variables are floating-point"@
    &&& r.context_factors@[0].weight == 900
}

/// The oracle tier applies when the reply holds all three required fields
/// and the confidence field reads as a decimal number.
pub open spec fn llm_applies(reply: Seq<char>) -> bool {
    &&& json_string_field(reply, "chosen_interpretation"@) is Some
    &&& json_string_field(reply, "reasoning"@) is Some
    &&& json_field(reply, "confidence"@) matches Some(txt)
        && spec_millis_of_number(txt) is Some
}

pub open spec fn is_llm_resolution(r: ResolvedAmbiguity, amb: Ambiguity, reply: Seq<char>) -> bool {
    &&& amb_agrees(r.original_ambiguity, amb)
    &&& json_string_field(reply, "chosen_interpretation"@) matches Some(c)
        && r.chosen_interpretation@ == c
    &&& json_string_field(reply, "reasoning"@) matches Some(re) && r.reasoning@ == re
    &&& json_field(reply, "confidence"@) matches Some(txt)
        && spec_millis_of_number(txt) matches Some(m) && r.confidence == m
    &&& forall|i: int| 0 <= i < r.context_factors@.len()
        ==> (#[trigger] r.context_factors@[i]).weight <= 1000
}

pub open spec fn default_applies(amb: Ambiguity) -> bool {
    amb.possible_interpretations@.len() > 0
}

pub open spec fn is_default_resolution(r: ResolvedAmbiguity, amb: Ambiguity) -> bool {
    &&& amb_agrees(r.original_ambiguity, amb)
    &&& r.chosen_interpretation@ == amb.possible_interpretations.deep_view()[0]
    &&& r.confidence == 300
    &&& r.reasoning@ == "Default resolution - chose first available interpretation"@
    &&& r.context_factors@.len() == 1
    &&& r.context_factors@[0].factor_type == ContextFactorType::UserIntent
    &&& r.context_factors@[0].description@ == "No strong contextual evidence, using default"@
    &&& r.context_factors@[0].weight == 300
}

/// Copy an ambiguity, keeping the views of its fields.
pub fn copy_ambiguity(a: &Ambiguity) -> (r: Ambiguity)
    ensures
        amb_agrees(r, *a),
{
    let mut scores: Vec<u32> = Vec::new();
    let mut i: usize = 0;
    while i < a.confidence_scores.len()
        invariant
            i <= a.confidence_scores@.len(),
            scores@ == a.confidence_scores@.take(i as int),
        decreases a.confidence_scores@.len() - i,
    {
        scores.push(a.confidence_scores[i]);
        proof {
            assert(a.confidence_scores@.take(i + 1)
                =~= a.confidence_scores@.take(i as int).push(a.confidence_scores@[i as int]));
        }
        i += 1;
    }
    proof {
        assert(a.confidence_scores@.take(a.confidence_scores@.len() as int) =~= a.confidence_scores@);
    }
    Ambiguity {
        id: a.id.clone(),
        description: a.description.clone(),
        possible_interpretations: crate::intent_extractor::copy_strings(&a.possible_interpretations),
        context: a.context.clone(),
        confidence_scores: scores,
    }
}

/// Ambiguity resolution system: an ordered rule table, then contextual
/// inference, then one oracle call per ambiguity, then a default.
pub struct AmbiguityResolver {
    pub resolution_rules: Vec<ResolutionRule>,
    pub context_history: Vec<String>,
}

impl AmbiguityResolver {
    pub open spec fn wf(self) -> bool {
        forall|i: int| 0 <= i < self.resolution_rules@.len()
            ==> (#[trigger] self.resolution_rules@[i]).confidence <= 1000
    }

    pub fn new() -> (r: AmbiguityResolver)
        ensures
            r.wf(),
            r.resolution_rules@.len() == 6,
            r.resolution_rules@[0].pattern@ == "(?i)\\bit\\b"@,
            r.resolution_rules@[0].resolution@ == "most_recent_variable"@,
            r.resolution_rules@[0].confidence == 700,
            r.resolution_rules@[0].rule_type == RuleType::PronounReference,
            r.resolution_rules@[1].pattern@ == "(?i)\\bthis\\b"@,
            r.resolution_rules@[1].resolution@ == "current_context_variable"@,
            r.resolution_rules@[1].confidence == 800,
            r.resolution_rules@[2].pattern@ == "(?i)calculate.*sum"@,
            r.resolution_rules@[2].resolution@ == "addition_operation"@,
            r.resolution_rules@[2].confidence == 900,
            r.resolution_rules@[3].pattern@ == "(?i)calculate.*product"@,
            r.resolution_rules@[3].resolution@ == "multiplication_operation"@,
            r.resolution_rules@[3].confidence == 900,
            r.resolution_rules@[4].pattern@ == "(?i)number|integer|count"@,
            r.resolution_rules@[4].resolution@ == "integer_type"@,
            r.resolution_rules@[4].confidence == 800,
            r.resolution_rules@[5].pattern@ == "(?i)decimal|float|real"@,
            r.resolution_rules@[5].resolution@ == "float_type"@,
            r.resolution_rules@[5].confidence == 800,
    {
        let mut rules: Vec<ResolutionRule> = Vec::new();
        rules.push(ResolutionRule {
            rule_type: RuleType::PronounReference,
            pattern: String::from_str("(?i)\\bit\\b"),
            resolution: String::from_str("most_recent_variable"),
            confidence: 700,
        });
        rules.push(ResolutionRule {
            rule_type: RuleType::PronounReference,
            pattern: String::from_str("(?i)\\bthis\\b"),
            resolution: String::from_str("current_context_variable"),
            confidence: 800,
        });
        rules.push(ResolutionRule {
            rule_type: RuleType::OperationDisambiguation,
            pattern: String::from_str("(?i)calculate.*sum"),
            resolution: String::from_str("addition_operation"),
            confidence: 900,
        });
        rules.push(ResolutionRule {
            rule_type: RuleType::OperationDisambiguation,
            pattern: String::from_str("(?i)calculate.*product"),
            resolution: String::from_str("multiplication_operation"),
            confidence: 900,
        });
        rules.push(ResolutionRule {
            rule_type: RuleType::TypeInference,
            pattern: String::from_str("(?i)number|integer|count"),
            resolution: String::from_str("integer_type"),
            confidence: 800,
        });
        rules.push(ResolutionRule {
            rule_type: RuleType::TypeInference,
            pattern: String::from_str("(?i)decimal|float|real"),
            resolution: String::from_str("float_type"),
            confidence: 800,
        });
        AmbiguityResolver {
            resolution_rules: rules,
            context_history: Vec::new(),
        }
    }

    /// Add a custom resolution rule at the end of the table.
    pub fn add_resolution_rule(&mut self, rule: ResolutionRule)
        requires
            old(self).wf(),
            rule.confidence <= 1000,
        ensures
            final(self).wf(),
            final(self).resolution_rules@ == old(self).resolution_rules@.push(rule),
            final(self).context_history@ == old(self).context_history@,
    {
        self.resolution_rules.push(rule);
    }

    /// Resolution statistics: the rule-table size and the context-history
    /// size, by name.
    pub fn get_resolution_stats(&self) -> (r: Vec<(String, usize)>)
        ensures
            r@.len() == 2,
            r@[0].0@ == "total_rules"@,
            r@[0].1 == self.resolution_rules@.len(),
            r@[1].0@ == "context_history_size"@,
            r@[1].1 == self.context_history@.len(),
    {
        let mut out: Vec<(String, usize)> = Vec::new();
        out.push((String::from_str("total_rules"), self.resolution_rules.len()));
        out.push((String::from_str("context_history_size"), self.context_history.len()));
        out
    }

    fn rule_matches(&self, rule: &ResolutionRule, ambiguity: &Ambiguity) -> (r: bool)
        ensures
            r == rule_fires(rule.pattern@, *ambiguity),
    {
        pattern_matches(rule.pattern.as_str(), ambiguity.context.as_str())
            || pattern_matches(rule.pattern.as_str(), ambiguity.description.as_str())
    }

    fn rule_type_name(t: RuleType) -> (r: &'static str)
        ensures
            r@ == rule_name(t),
    {
        match t {
            RuleType::PronounReference => "PronounReference",
            RuleType::OperationDisambiguation => "OperationDisambiguation",
            RuleType::TypeInference => "TypeInference",
            RuleType::ScopeResolution => "ScopeResolution",
            RuleType::ControlFlowClarification => "ControlFlowClarification",
        }
    }

    /// First tier: the first rule whose pattern matches the ambiguity's
    /// context or description.
    fn try_rule_based_resolution(&self, ambiguity: &Ambiguity) -> (r: Option<ResolvedAmbiguity>)
        requires
            self.wf(),
        ensures
            match first_firing_rule(self.resolution_rules@, *ambiguity, 0) {
                Some(i) => r matches Some(res)
                    && is_rule_resolution(res, self.resolution_rules@, *ambiguity, i)
                    && res.confidence <= 1000,
                None => r is None,
            },
    {
        let mut i: usize = 0;
        while i < self.resolution_rules.len()
            invariant
                self.wf(),
                i <= self.resolution_rules@.len(),
                first_firing_rule(self.resolution_rules@, *ambiguity, 0)
                    == first_firing_rule(self.resolution_rules@, *ambiguity, i as int),
            decreases self.resolution_rules@.len() - i,
        {
            let rule = &self.resolution_rules[i];
            if self.rule_matches(rule, ambiguity) {
                let mut reasoning = String::from_str("Applied rule: ");
                reasoning.append(Self::rule_type_name(rule.rule_type));
                let mut factor_desc = String::from_str("Matched pattern: ");
                factor_desc.append(rule.pattern.as_str());
                let mut factors: Vec<ContextFactor> = Vec::new();
                factors.push(ContextFactor {
                    factor_type: ContextFactorType::SyntacticPatterns,
                    description: factor_desc,
                    weight: rule.confidence,
                });
                return Some(ResolvedAmbiguity {
                    original_ambiguity: copy_ambiguity(ambiguity),
                    chosen_interpretation: rule.resolution.clone(),
                    confidence: rule.confidence,
                    reasoning,
                    context_factors: factors,
                });
            }
            i += 1;
        }
        None
    }

    /// Second tier: pronoun ambiguities resolve to the most recently
    /// declared variable; operation ambiguities resolve to floating point
    /// when the context holds only float-typed variables.
    fn try_contextual_resolution(&self, ambiguity: &Ambiguity, context: &ResolutionContext) -> (r: Option<ResolvedAmbiguity>)
        ensures
            ({
                let vars = context.variables_in_scope.deep_view();
                if pronoun_ctx_applies(*ambiguity, vars) {
                    r matches Some(res) && is_pronoun_ctx_resolution(res, *ambiguity, vars)
                } else if operation_ctx_applies(*ambiguity, context.has_integer_types, context.has_float_types) {
                    r matches Some(res) && is_operation_ctx_resolution(res, *ambiguity)
                } else {
                    r is None
                }
            }),
    {
        if str_contains(ambiguity.description.as_str(), "pronoun") {
            if context.variables_in_scope.len() > 0 {
                let most_recent = &context.variables_in_scope[context.variables_in_scope.len() - 1];
                let mut factor_desc = String::from_str("Most recent variable: ");
                factor_desc.append(most_recent.as_str());
                let mut factors: Vec<ContextFactor> = Vec::new();
                factors.push(ContextFactor {
                    factor_type: ContextFactorType::PreviousOperations,
                    description: factor_desc,
                    weight: 800,
                });
                return Some(ResolvedAmbiguity {
                    original_ambiguity: copy_ambiguity(ambiguity),
                    chosen_interpretation: most_recent.clone(),
                    confidence: 750,
                    reasoning: String::from_str("Resolved pronoun to most recently mentioned variable"),
                    context_factors: factors,
                });
            }
        }
        if str_contains(ambiguity.description.as_str(), "operation") {
            if context.has_float_types && !context.has_integer_types {
                let mut factors: Vec<ContextFactor> = Vec::new();
                factors.push(ContextFactor {
                    factor_type: ContextFactorType::VariableTypes,
                    description: String::from_str("All variables are floating-point"),
                    weight: 900,
                });
                return Some(ResolvedAmbiguity {
                    original_ambiguity: copy_ambiguity(ambiguity),
                    chosen_interpretation: String::from_str("floating_point_operation"),
                    confidence: 800,
                    reasoning: String::from_str("Context contains only floating-point types"),
                    context_factors: factors,
                });
            }
        }
        None
    }

    /// Third tier: decode the oracle's reply; any missing field or
    /// unreadable confidence yields no resolution, never an error.
    fn try_llm_resolution(&self, ambiguity: &Ambiguity, reply: &str) -> (r: Option<ResolvedAmbiguity>)
        ensures
            if llm_applies(reply@) {
                r matches Some(res) && is_llm_resolution(res, *ambiguity, reply@)
                    && res.confidence <= 1000
            } else {
                r is None
            },
    {
        let chosen = match get_string_field(reply, "chosen_interpretation") {
            None => {
                return None;
            },
            Some(c) => c,
        };
        let reasoning = match get_string_field(reply, "reasoning") {
            None => {
                return None;
            },
            Some(re) => re,
        };
        let confidence = match get_field_text(reply, "confidence") {
            None => {
                return None;
            },
            Some(txt) => match millis_of_number(txt.as_str()) {
                None => {
                    return None;
                },
                Some(m) => m,
            },
        };
        let mut factors: Vec<ContextFactor> = Vec::new();
        if let Some(items) = get_array_elems(reply, "context_factors") {
            let mut i: usize = 0;
            while i < items.len()
                invariant
                    i <= items@.len(),
                    forall|k: int| 0 <= k < factors@.len()
                        ==> (#[trigger] factors@[k]).weight <= 1000,
                decreases items@.len() - i,
            {
                let item = &items[i];
                if let Some(desc) = get_string_field(item.as_str(), "description") {
                    let weight = match get_field_text(item.as_str(), "weight") {
                        None => 500,
                        Some(txt) => match millis_of_number(txt.as_str()) {
                            None => 500,
                            Some(m) => m,
                        },
                    };
                    let factor_type = match get_string_field(item.as_str(), "factor_type") {
                        None => ContextFactorType::UserIntent,
                        Some(name) => Self::map_factor_type(&name),
                    };
                    factors.push(ContextFactor {
                        factor_type,
                        description: desc,
                        weight,
                    });
                }
                i += 1;
            }
        }
        Some(ResolvedAmbiguity {
            original_ambiguity: copy_ambiguity(ambiguity),
            chosen_interpretation: chosen,
            confidence,
            reasoning,
            context_factors: factors,
        })
    }

    fn map_factor_type(name: &String) -> (r: ContextFactorType)
    {
        if name == &String::from_str("VariableTypes") {
            ContextFactorType::VariableTypes
        } else if name == &String::from_str("PreviousOperations") {
            ContextFactorType::PreviousOperations
        } else if name == &String::from_str("DomainKnowledge") {
            ContextFactorType::DomainKnowledge
        } else if name == &String::from_str("SyntacticPatterns") {
            ContextFactorType::SyntacticPatterns
        } else if name == &String::from_str("SemanticConstraints") {
            ContextFactorType::SemanticConstraints
        } else {
            ContextFactorType::UserIntent
        }
    }

    /// Last tier: the first listed interpretation, at low confidence.
    fn try_default_resolution(&self, ambiguity: &Ambiguity) -> (r: Option<ResolvedAmbiguity>)
        ensures
            if default_applies(*ambiguity) {
                r matches Some(res) && is_default_resolution(res, *ambiguity)
            } else {
                r is None
            },
    {
        if ambiguity.possible_interpretations.len() > 0 {
            let first = ambiguity.possible_interpretations[0].clone();
            let mut factors: Vec<ContextFactor> = Vec::new();
            factors.push(ContextFactor {
                factor_type: ContextFactorType::UserIntent,
                description: String::from_str("No strong contextual evidence, using default"),
                weight: 300,
            });
            Some(ResolvedAmbiguity {
                original_ambiguity: copy_ambiguity(ambiguity),
                chosen_interpretation: first,
                confidence: 300,
                reasoning: String::from_str("Default resolution - chose first available interpretation"),
                context_factors: factors,
            })
        } else {
            None
        }
    }
}

/// The names of the intent's data structures, in order.
pub open spec fn ds_names(ds: Seq<DataStructure>) -> Seq<Seq<char>> {
    Seq::new(ds.len(), |i: int| ds[i].name@)
}

pub open spec fn has_integer_typed(ds: Seq<DataStructure>) -> bool {
    exists|k: int| 0 <= k < ds.len() && (#[trigger] ds[k].data_type) matches DataType::Integer { .. }
}

pub open spec fn has_float_typed(ds: Seq<DataStructure>) -> bool {
    exists|k: int| 0 <= k < ds.len() && (#[trigger] ds[k].data_type) matches DataType::Float { .. }
}

/// Whether some tier of the cascade resolves this ambiguity.
pub open spec fn resolvable(
    rules: Seq<ResolutionRule>,
    amb: Ambiguity,
    vars: Seq<Seq<char>>,
    has_int: bool,
    has_float: bool,
    reply: Seq<char>,
) -> bool {
    ||| first_firing_rule(rules, amb, 0) is Some
    ||| pronoun_ctx_applies(amb, vars)
    ||| operation_ctx_applies(amb, has_int, has_float)
    ||| llm_applies(reply)
    ||| default_applies(amb)
}

/// The outcome of the cascade on one ambiguity.
pub open spec fn is_cascade_resolution(
    r: Option<ResolvedAmbiguity>,
    rules: Seq<ResolutionRule>,
    amb: Ambiguity,
    vars: Seq<Seq<char>>,
    has_int: bool,
    has_float: bool,
    reply: Seq<char>,
) -> bool {
    match first_firing_rule(rules, amb, 0) {
        Some(i) => r matches Some(res) && is_rule_resolution(res, rules, amb, i),
        None => if pronoun_ctx_applies(amb, vars) {
            r matches Some(res) && is_pronoun_ctx_resolution(res, amb, vars)
        } else if operation_ctx_applies(amb, has_int, has_float) {
            r matches Some(res) && is_operation_ctx_resolution(res, amb)
        } else if llm_applies(reply) {
            r matches Some(res) && is_llm_resolution(res, amb, reply)
        } else if default_applies(amb) {
            r matches Some(res) && is_default_resolution(res, amb)
        } else {
            r is None
        },
    }
}

/// The strategy label of the tier that resolves the ambiguity.
pub open spec fn cascade_strategy(
    rules: Seq<ResolutionRule>,
    amb: Ambiguity,
    vars: Seq<Seq<char>>,
    has_int: bool,
    has_float: bool,
    reply: Seq<char>,
) -> ResolutionStrategy {
    if first_firing_rule(rules, amb, 0) is Some {
        ResolutionStrategy::PrecedenceRules
    } else if pronoun_ctx_applies(amb, vars) {
        ResolutionStrategy::ContextualInference
    } else if operation_ctx_applies(amb, has_int, has_float) {
        ResolutionStrategy::TypeBasedDisambiguation
    } else if llm_applies(reply) {
        ResolutionStrategy::LLMReasoning
    } else {
        ResolutionStrategy::DefaultAssumption
    }
}

/// The oracle reply paired with the ambiguity at position `j`; missing
/// replies read as empty text.
pub open spec fn reply_at(replies: Seq<Seq<char>>, j: int) -> Seq<char> {
    if 0 <= j < replies.len() {
        replies[j]
    } else {
        Seq::<char>::empty()
    }
}

/// How many of the first `upto` ambiguities the cascade resolves.
pub open spec fn count_resolved(
    rules: Seq<ResolutionRule>,
    ambs: Seq<Ambiguity>,
    replies: Seq<Seq<char>>,
    vars: Seq<Seq<char>>,
    has_int: bool,
    has_float: bool,
    upto: int,
) -> int
    decreases upto,
{
    if upto <= 0 {
        0
    } else {
        count_resolved(rules, ambs, replies, vars, has_int, has_float, upto - 1)
            + if resolvable(rules, ambs[upto - 1], vars, has_int, has_float, reply_at(replies, upto - 1)) {
                1int
            } else {
                0int
            }
    }
}

/// The resolved count grows by at most one per ambiguity.
pub proof fn lemma_count_resolved_mono(
    rules: Seq<ResolutionRule>,
    ambs: Seq<Ambiguity>,
    replies: Seq<Seq<char>>,
    vars: Seq<Seq<char>>,
    has_int: bool,
    has_float: bool,
    a: int,
    b: int,
)
    requires
        0 <= a <= b,
    ensures
        count_resolved(rules, ambs, replies, vars, has_int, has_float, a)
            <= count_resolved(rules, ambs, replies, vars, has_int, has_float, b),
        count_resolved(rules, ambs, replies, vars, has_int, has_float, b)
            <= count_resolved(rules, ambs, replies, vars, has_int, has_float, a) + (b - a),
    decreases b - a,
{
    if a < b {
        lemma_count_resolved_mono(rules, ambs, replies, vars, has_int, has_float, a, b - 1);
    }
}

pub proof fn lemma_count_resolved_bounds(
    rules: Seq<ResolutionRule>,
    ambs: Seq<Ambiguity>,
    replies: Seq<Seq<char>>,
    vars: Seq<Seq<char>>,
    has_int: bool,
    has_float: bool,
    upto: int,
)
    requires
        upto >= 0,
    ensures
        0 <= count_resolved(rules, ambs, replies, vars, has_int, has_float, upto) <= upto,
    decreases upto,
{
    if upto > 0 {
        lemma_count_resolved_bounds(rules, ambs, replies, vars, has_int, has_float, upto - 1);
    }
}

/// The sum of the first `upto` resolved confidences.
pub open spec fn sum_confidences(rs: Seq<ResolvedAmbiguity>, upto: int) -> int
    decreases upto,
{
    if upto <= 0 {
        0
    } else {
        sum_confidences(rs, upto - 1) + rs[upto - 1].confidence
    }
}

/// After resolution an operation's type is either its original type or an
/// arithmetic type an operation resolution installed.
pub open spec fn type_same_or_resolved(new: OperationType, old: OperationType) -> bool {
    ||| new == old
    ||| new == (OperationType::Arithmetic { operator: ArithmeticOp::Add })
    ||| new == (OperationType::Arithmetic { operator: ArithmeticOp::Multiply })
}

/// Substitution of a bare pronoun by the chosen interpretation.
pub open spec fn pron_subst(v: Seq<char>, c: Seq<char>) -> Seq<char> {
    if v == "it"@ || v == "this"@ || v == "that"@ {
        c
    } else {
        v
    }
}

/// One operation after a pronoun resolution: pronoun inputs substituted
/// and pronouns replaced in the description; all else unchanged.
pub open spec fn pronoun_rewritten(new: Operation, old: Operation, c: Seq<char>) -> bool {
    &&& new.id == old.id
    &&& new.operation_type == old.operation_type
    &&& new.outputs == old.outputs
    &&& new.confidence == old.confidence
    &&& new.inputs.deep_view().len() == old.inputs.deep_view().len()
    &&& forall|j: int| 0 <= j < new.inputs.deep_view().len()
        ==> #[trigger] new.inputs.deep_view()[j] == pron_subst(old.inputs.deep_view()[j], c)
    &&& new.description@ == replaced(
        replaced(replaced(old.description@, "it"@, c), "this"@, c),
        "that"@,
        c,
    )
}

/// One operation after an operation-type resolution: operations whose
/// description holds "calculate" take the chosen arithmetic type, or are
/// marked floating-point; all else unchanged.
pub open spec fn operation_rewritten(new: Operation, old: Operation, c: Seq<char>) -> bool {
    let calc = spec_find(old.description@, "calculate"@, 0) is Some;
    &&& new.id == old.id
    &&& new.inputs == old.inputs
    &&& new.outputs == old.outputs
    &&& new.confidence == old.confidence
    &&& if calc && c == "addition_operation"@ {
        new.operation_type == (OperationType::Arithmetic { operator: ArithmeticOp::Add })
            && new.description@ == old.description@
    } else if calc && c == "multiplication_operation"@ {
        new.operation_type == (OperationType::Arithmetic { operator: ArithmeticOp::Multiply })
            && new.description@ == old.description@
    } else if calc && c == "floating_point_operation"@ {
        new.operation_type == old.operation_type
            && new.description@ == old.description@ + " (floating-point)"@
    } else {
        new.operation_type == old.operation_type && new.description@ == old.description@
    }
}

impl AmbiguityResolver {
    fn build_resolution_context(&self, intent: &ProgramIntent) -> (r: ResolutionContext)
        ensures
            r.variables_in_scope.deep_view() == ds_names(intent.data_structures@),
            r.has_integer_types == has_integer_typed(intent.data_structures@),
            r.has_float_types == has_float_typed(intent.data_structures@),
    {
        let mut vars: Vec<String> = Vec::new();
        let mut has_int = false;
        let mut has_float = false;
        let mut i: usize = 0;
        while i < intent.data_structures.len()
            invariant
                i <= intent.data_structures@.len(),
                vars@.len() == i,
                forall|k: int| 0 <= k < i
                    ==> (#[trigger] vars@[k])@ == intent.data_structures@[k].name@,
                has_int == exists|k: int| 0 <= k < i
                    && (#[trigger] intent.data_structures@[k].data_type) matches DataType::Integer { .. },
                has_float == exists|k: int| 0 <= k < i
                    && (#[trigger] intent.data_structures@[k].data_type) matches DataType::Float { .. },
            decreases intent.data_structures@.len() - i,
        {
            let ds = &intent.data_structures[i];
            vars.push(ds.name.clone());
            match &ds.data_type {
                DataType::Integer { .. } => {
                    has_int = true;
                },
                DataType::Float { .. } => {
                    has_float = true;
                },
                _ => {},
            }
            i += 1;
        }
        let mut recent: Vec<String> = Vec::new();
        let mut j: usize = 0;
        while j < intent.operations.len() && j < 5
            invariant
                j <= intent.operations@.len(),
                j <= 5,
            decreases 5 - j,
        {
            recent.push(intent.operations[j].description.clone());
            j += 1;
        }
        proof {
            assert(vars.deep_view() =~= ds_names(intent.data_structures@));
        }
        ResolutionContext {
            variables_in_scope: vars,
            recent_operations: recent,
            has_integer_types: has_int,
            has_float_types: has_float,
            control_flow_state: String::from_str("sequential"),
        }
    }

    /// Run the cascade on one ambiguity; the first tier that succeeds wins.
    fn resolve_single_ambiguity(
        &self,
        ambiguity: &Ambiguity,
        context: &ResolutionContext,
        reply: &str,
    ) -> (r: Option<ResolvedAmbiguity>)
        requires
            self.wf(),
        ensures
            is_cascade_resolution(
                r,
                self.resolution_rules@,
                *ambiguity,
                context.variables_in_scope.deep_view(),
                context.has_integer_types,
                context.has_float_types,
                reply@,
            ),
            r matches Some(res) ==> res.confidence <= 1000,
    {
        if let Some(resolved) = self.try_rule_based_resolution(ambiguity) {
            return Some(resolved);
        }
        if let Some(resolved) = self.try_contextual_resolution(ambiguity, context) {
            return Some(resolved);
        }
        if let Some(resolved) = self.try_llm_resolution(ambiguity, reply) {
            return Some(resolved);
        }
        self.try_default_resolution(ambiguity)
    }

    fn rewrite_pronoun_op(op: Operation, chosen: &String) -> (r: Operation)
        ensures
            pronoun_rewritten(r, op, chosen@),
    {
        let mut new_inputs: Vec<String> = Vec::new();
        let it_s = String::from_str("it");
        let this_s = String::from_str("this");
        let that_s = String::from_str("that");
        let mut j: usize = 0;
        while j < op.inputs.len()
            invariant
                j <= op.inputs@.len(),
                it_s@ == "it"@,
                this_s@ == "this"@,
                that_s@ == "that"@,
                new_inputs@.len() == j,
                forall|k: int| 0 <= k < j
                    ==> (#[trigger] new_inputs@[k])@ == pron_subst(op.inputs@[k]@, chosen@),
            decreases op.inputs@.len() - j,
        {
            let cur = &op.inputs[j];
            if *cur == it_s || *cur == this_s || *cur == that_s {
                new_inputs.push(chosen.clone());
            } else {
                new_inputs.push(cur.clone());
            }
            proof {
                assert(new_inputs@[j as int]@ == pron_subst(op.inputs@[j as int]@, chosen@));
            }
            j += 1;
        }
        let d1 = replace_all(op.description.as_str(), "it", chosen.as_str());
        let d2 = replace_all(d1.as_str(), "this", chosen.as_str());
        let d3 = replace_all(d2.as_str(), "that", chosen.as_str());
        let r = Operation {
            id: op.id,
            operation_type: op.operation_type,
            inputs: new_inputs,
            outputs: op.outputs,
            description: d3,
            confidence: op.confidence,
        };
        proof {
            assert forall|k: int| 0 <= k < r.inputs.deep_view().len()
                implies #[trigger] r.inputs.deep_view()[k] == pron_subst(op.inputs.deep_view()[k], chosen@) by {
                assert(r.inputs.deep_view()[k] == r.inputs@[k]@);
            }
        }
        r
    }

    /// Rewrite pronoun inputs and descriptions across the operations.
    fn apply_pronoun_resolution(chosen: &String, operations: &mut Vec<Operation>)
        ensures
            final(operations)@.len() == old(operations)@.len(),
            forall|i: int| 0 <= i < final(operations)@.len()
                ==> pronoun_rewritten(#[trigger] final(operations)@[i], old(operations)@[i], chosen@),
    {
        let ghost orig = operations@;
        let mut out: Vec<Operation> = Vec::new();
        while operations.len() > 0
            invariant
                out@.len() + operations@.len() == orig.len(),
                operations@ == orig.subrange(out@.len() as int, orig.len() as int),
                forall|i: int| 0 <= i < out@.len()
                    ==> pronoun_rewritten(#[trigger] out@[i], orig[i], chosen@),
            decreases operations@.len(),
        {
            let op = operations.remove(0);
            proof {
                assert(op == orig[out@.len() as int]);
            }
            out.push(Self::rewrite_pronoun_op(op, chosen));
            proof {
                assert(operations@ =~= orig.subrange(out@.len() as int, orig.len() as int));
            }
        }
        let mut done = out;
        core::mem::swap(operations, &mut done);
    }

    fn rewrite_operation_op(op: Operation, chosen: &String) -> (r: Operation)
        ensures
            operation_rewritten(r, op, chosen@),
    {
        let calc = str_contains(op.description.as_str(), "calculate");
        if calc && *chosen == String::from_str("addition_operation") {
            Operation {
                id: op.id,
                operation_type: OperationType::Arithmetic { operator: ArithmeticOp::Add },
                inputs: op.inputs,
                outputs: op.outputs,
                description: op.description,
                confidence: op.confidence,
            }
        } else if calc && *chosen == String::from_str("multiplication_operation") {
            Operation {
                id: op.id,
                operation_type: OperationType::Arithmetic { operator: ArithmeticOp::Multiply },
                inputs: op.inputs,
                outputs: op.outputs,
                description: op.description,
                confidence: op.confidence,
            }
        } else if calc && *chosen == String::from_str("floating_point_operation") {
            let mut d = op.description;
            d.append(" (floating-point)");
            Operation {
                id: op.id,
                operation_type: op.operation_type,
                inputs: op.inputs,
                outputs: op.outputs,
                description: d,
                confidence: op.confidence,
            }
        } else {
            op
        }
    }

    /// Rewrite the operation types of calculation operations.
    fn apply_operation_resolution(chosen: &String, operations: &mut Vec<Operation>)
        ensures
            final(operations)@.len() == old(operations)@.len(),
            forall|i: int| 0 <= i < final(operations)@.len()
                ==> operation_rewritten(#[trigger] final(operations)@[i], old(operations)@[i], chosen@),
    {
        let ghost orig = operations@;
        let mut out: Vec<Operation> = Vec::new();
        while operations.len() > 0
            invariant
                out@.len() + operations@.len() == orig.len(),
                operations@ == orig.subrange(out@.len() as int, orig.len() as int),
                forall|i: int| 0 <= i < out@.len()
                    ==> operation_rewritten(#[trigger] out@[i], orig[i], chosen@),
            decreases operations@.len(),
        {
            let op = operations.remove(0);
            proof {
                assert(op == orig[out@.len() as int]);
            }
            out.push(Self::rewrite_operation_op(op, chosen));
            proof {
                assert(operations@ =~= orig.subrange(out@.len() as int, orig.len() as int));
            }
        }
        let mut done = out;
        core::mem::swap(operations, &mut done);
    }

    /// The prompt for the oracle call on one ambiguity.
    pub fn build_resolution_prompt(&self, ambiguity: &Ambiguity) -> (r: String)
        ensures
            r@ == "Resolve the following ambiguity.\nDescription: "@ + ambiguity.description@
                + "\nContext: "@ + ambiguity.context@
                + "\nRespond with a JSON object holding chosen_interpretation, confidence, reasoning, and weighted context_factors. Return ONLY the JSON object."@,
    {
        let mut p = String::from_str("Resolve the following ambiguity.\nDescription: ");
        p.append(ambiguity.description.as_str());
        p.append("\nContext: ");
        p.append(ambiguity.context.as_str());
        p.append(
            "\nRespond with a JSON object holding chosen_interpretation, confidence, reasoning, and weighted context_factors. Return ONLY the JSON object.",
        );
        p
    }

    /// Resolve the intent's ambiguities: each either moves to the resolved
    /// list with a chosen interpretation, confidence, reasoning, and
    /// context factors, or remains; applying a resolution rewrites the
    /// intent's operations in place. The count of resolved plus remaining
    /// ambiguities equals the original count, and the intent keeps exactly
    /// the remaining ones.
    #[verifier::rlimit(100)]
    pub fn resolve_ambiguities(&self, intent: ProgramIntent, oracle_replies: &Vec<String>) -> (r: (
        ProgramIntent,
        ResolutionResult,
    ))
        requires
            self.wf(),
        ensures
            r.1.resolved_ambiguities@.len() + r.1.remaining_ambiguities@.len()
                == intent.ambiguities@.len(),
            r.0.ambiguities@.len() == r.1.remaining_ambiguities@.len(),
            ({
                let rules = self.resolution_rules@;
                let ambs = intent.ambiguities@;
                let replies = oracle_replies.deep_view();
                let vars = ds_names(intent.data_structures@);
                let hi = has_integer_typed(intent.data_structures@);
                let hf = has_float_typed(intent.data_structures@);
                &&& r.1.resolved_ambiguities@.len()
                    == count_resolved(rules, ambs, replies, vars, hi, hf, ambs.len() as int)
                &&& forall|j: int| 0 <= j < ambs.len()
                    && resolvable(rules, #[trigger] ambs[j], vars, hi, hf, reply_at(replies, j))
                    ==> is_cascade_resolution(
                        Some(r.1.resolved_ambiguities@[count_resolved(rules, ambs, replies, vars, hi, hf, j)]),
                        rules,
                        ambs[j],
                        vars,
                        hi,
                        hf,
                        reply_at(replies, j),
                    )
                &&& forall|j: int| 0 <= j < ambs.len()
                    && !resolvable(rules, #[trigger] ambs[j], vars, hi, hf, reply_at(replies, j))
                    ==> r.0.ambiguities@[j - count_resolved(rules, ambs, replies, vars, hi, hf, j)]
                        == ambs[j]
            }),
            forall|k: int| 0 <= k < r.1.resolved_ambiguities@.len()
                ==> (#[trigger] r.1.resolved_ambiguities@[k]).confidence <= 1000,
            forall|k: int| 0 <= k < r.1.remaining_ambiguities@.len()
                ==> amb_agrees(#[trigger] r.1.remaining_ambiguities@[k], r.0.ambiguities@[k]),
            r.0.operations@.len() == intent.operations@.len(),
            forall|i: int| 0 <= i < r.0.operations@.len()
                ==> (#[trigger] r.0.operations@[i]).id == intent.operations@[i].id
                    && r.0.operations@[i].outputs == intent.operations@[i].outputs
                    && r.0.operations@[i].confidence == intent.operations@[i].confidence
                    && type_same_or_resolved(r.0.operations@[i].operation_type,
                        intent.operations@[i].operation_type),
            r.1.resolved_ambiguities@.len() == 0 ==> r.0.operations@ == intent.operations@,
            r.0.control_flow == intent.control_flow,
            r.0.data_structures@ == intent.data_structures@,
            r.0.constraints@ == intent.constraints@,
            r.0.metadata == intent.metadata,
            r.1.resolved_ambiguities@.len() == 0 ==> r.1.confidence_score == 0,
            r.1.resolved_ambiguities@.len() > 0
                ==> r.1.confidence_score == sum_confidences(
                    r.1.resolved_ambiguities@,
                    r.1.resolved_ambiguities@.len() as int,
                ) / r.1.resolved_ambiguities@.len() as int,
            r.1.resolution_strategy == (if r.1.resolved_ambiguities@.len() > 0 {
                ResolutionStrategy::ContextualInference
            } else {
                ResolutionStrategy::DefaultAssumption
            }),
    {
        let context = self.build_resolution_context(&intent);
        let ProgramIntent {
            mut operations,
            data_structures,
            control_flow,
            constraints,
            mut ambiguities,
            metadata,
        } = intent;
        let ghost orig_ambs = ambiguities@;
        let ghost orig_ops = operations@;
        let ghost rules = self.resolution_rules@;
        let ghost replies = oracle_replies.deep_view();
        let ghost vars = context.variables_in_scope.deep_view();
        let ghost hi = context.has_integer_types;
        let ghost hf = context.has_float_types;
        let n_ambs = ambiguities.len();
        proof {
            assert(orig_ambs.len() == n_ambs);
        }
        let mut resolved: Vec<ResolvedAmbiguity> = Vec::new();
        let mut remaining: Vec<Ambiguity> = Vec::new();
        let empty_reply = String::new();
        let mut j: usize = 0;
        while ambiguities.len() > 0
            invariant
                self.wf(),
                j == resolved@.len() + remaining@.len(),
                j + ambiguities@.len() == orig_ambs.len(),
                ambiguities@ == orig_ambs.subrange(j as int, orig_ambs.len() as int),
                orig_ambs.len() == n_ambs,
                vars == context.variables_in_scope.deep_view(),
                hi == context.has_integer_types,
                hf == context.has_float_types,
                rules == self.resolution_rules@,
                replies == oracle_replies.deep_view(),
                empty_reply@ == Seq::<char>::empty(),
                resolved@.len() == count_resolved(rules, orig_ambs, replies, vars, hi, hf, j as int),
                forall|j2: int| 0 <= j2 < j
                    && resolvable(rules, #[trigger] orig_ambs[j2], vars, hi, hf, reply_at(replies, j2))
                    ==> is_cascade_resolution(
                        Some(resolved@[count_resolved(rules, orig_ambs, replies, vars, hi, hf, j2)]),
                        rules,
                        orig_ambs[j2],
                        vars,
                        hi,
                        hf,
                        reply_at(replies, j2),
                    ),
                forall|j2: int| 0 <= j2 < j
                    && !resolvable(rules, #[trigger] orig_ambs[j2], vars, hi, hf, reply_at(replies, j2))
                    ==> remaining@[j2 - count_resolved(rules, orig_ambs, replies, vars, hi, hf, j2)]
                        == orig_ambs[j2],
                forall|k: int| 0 <= k < resolved@.len()
                    ==> (#[trigger] resolved@[k]).confidence <= 1000,
                operations@.len() == orig_ops.len(),
                forall|i: int| 0 <= i < operations@.len()
                    ==> (#[trigger] operations@[i]).id == orig_ops[i].id
                        && operations@[i].outputs == orig_ops[i].outputs
                        && operations@[i].confidence == orig_ops[i].confidence
                        && type_same_or_resolved(operations@[i].operation_type,
                            orig_ops[i].operation_type),
                resolved@.len() == 0 ==> operations@ == orig_ops,
            decreases ambiguities@.len(),
        {
            let ambiguity = ambiguities.remove(0);
            proof {
                assert(ambiguity == orig_ambs[j as int]);
                assert(count_resolved(rules, orig_ambs, replies, vars, hi, hf, j + 1)
                    == count_resolved(rules, orig_ambs, replies, vars, hi, hf, j as int)
                    + if resolvable(rules, orig_ambs[j as int], vars, hi, hf, reply_at(replies, j as int)) {
                        1int
                    } else {
                        0int
                    });
            }
            let reply = if j < oracle_replies.len() {
                &oracle_replies[j]
            } else {
                &empty_reply
            };
            proof {
                assert(reply@ == reply_at(replies, j as int));
            }
            let ghost old_resolved = resolved@;
            let ghost old_remaining = remaining@;
            proof {
                assert(old_resolved.len()
                    == count_resolved(rules, orig_ambs, replies, vars, hi, hf, j as int));
            }
            match self.resolve_single_ambiguity(&ambiguity, &context, reply.as_str()) {
                Some(res) => {
                    let is_pronoun = ambiguity.id == String::from_str("pronoun_ambiguity");
                    let is_operation = ambiguity.id == String::from_str("operation_ambiguity");
                    if is_pronoun {
                        Self::apply_pronoun_resolution(&res.chosen_interpretation, &mut operations);
                    } else if is_operation {
                        Self::apply_operation_resolution(&res.chosen_interpretation, &mut operations);
                    }
                    resolved.push(res);
                },
                None => {
                    remaining.push(ambiguity);
                },
            }
            proof {
                assert(ambiguities@ =~= orig_ambs.subrange(j + 1, orig_ambs.len() as int));
                assert(orig_ambs.len() == n_ambs);
                let cj = count_resolved(rules, orig_ambs, replies, vars, hi, hf, j as int);
                assert forall|j2: int|
                    0 <= j2 < j + 1
                    && resolvable(rules, #[trigger] orig_ambs[j2], vars, hi, hf, reply_at(replies, j2))
                    implies is_cascade_resolution(
                        Some(resolved@[count_resolved(rules, orig_ambs, replies, vars, hi, hf, j2)]),
                        rules,
                        orig_ambs[j2],
                        vars,
                        hi,
                        hf,
                        reply_at(replies, j2),
                    ) by {
                    let cj2 = count_resolved(rules, orig_ambs, replies, vars, hi, hf, j2);
                    lemma_count_resolved_bounds(rules, orig_ambs, replies, vars, hi, hf, j2);
                    if j2 < j {
                        assert(count_resolved(rules, orig_ambs, replies, vars, hi, hf, j2 + 1) == cj2 + 1);
                        lemma_count_resolved_mono(rules, orig_ambs, replies, vars, hi, hf, j2 + 1, j as int);
                        assert(cj2 < cj);
                        assert(cj2 < old_resolved.len());
                        assert(resolved@[cj2] == old_resolved[cj2]);
                        assert(is_cascade_resolution(
                            Some(old_resolved[cj2]),
                            rules,
                            orig_ambs[j2],
                            vars,
                            hi,
                            hf,
                            reply_at(replies, j2),
                        ));
                    } else {
                        assert(resolved@[cj2] == resolved@[old_resolved.len() as int]);
                    }
                }
                assert forall|j2: int|
                    0 <= j2 < j + 1
                    && !resolvable(rules, #[trigger] orig_ambs[j2], vars, hi, hf, reply_at(replies, j2))
                    implies remaining@[j2 - count_resolved(rules, orig_ambs, replies, vars, hi, hf, j2)]
                        == orig_ambs[j2] by {
                    let cj2 = count_resolved(rules, orig_ambs, replies, vars, hi, hf, j2);
                    lemma_count_resolved_bounds(rules, orig_ambs, replies, vars, hi, hf, j2);
                    if j2 < j {
                        assert(count_resolved(rules, orig_ambs, replies, vars, hi, hf, j2 + 1) == cj2);
                        lemma_count_resolved_mono(rules, orig_ambs, replies, vars, hi, hf, j2 + 1, j as int);
                        assert(j2 - cj2 < old_remaining.len());
                        assert(remaining@[j2 - cj2] == old_remaining[j2 - cj2]);
                    } else {
                        assert(remaining@[j2 - cj2] == remaining@[old_remaining.len() as int]);
                    }
                }
            }
            j += 1;
        }
        proof {
            assert(j == orig_ambs.len());
        }
        let mut result_remaining: Vec<Ambiguity> = Vec::new();
        let mut k: usize = 0;
        while k < remaining.len()
            invariant
                k <= remaining@.len(),
                result_remaining@.len() == k,
                forall|i: int| 0 <= i < k
                    ==> amb_agrees(#[trigger] result_remaining@[i], remaining@[i]),
            decreases remaining@.len() - k,
        {
            result_remaining.push(copy_ambiguity(&remaining[k]));
            k += 1;
        }
        let confidence_score = Self::average_confidence(&resolved);
        let resolution_strategy = if resolved.len() > 0 {
            ResolutionStrategy::ContextualInference
        } else {
            ResolutionStrategy::DefaultAssumption
        };
        let new_intent = ProgramIntent {
            operations,
            data_structures,
            control_flow,
            constraints,
            ambiguities: remaining,
            metadata,
        };
        (
            new_intent,
            ResolutionResult {
                resolved_ambiguities: resolved,
                remaining_ambiguities: result_remaining,
                confidence_score,
                resolution_strategy,
            },
        )
    }

    /// The mean of the resolved confidences, zero when none were resolved.
    fn average_confidence(resolved: &Vec<ResolvedAmbiguity>) -> (r: u32)
        requires
            forall|k: int| 0 <= k < resolved@.len()
                ==> (#[trigger] resolved@[k]).confidence <= 1000,
        ensures
            r <= 1000,
            resolved@.len() == 0 ==> r == 0,
            resolved@.len() > 0 ==> r == sum_confidences(resolved@, resolved@.len() as int)
                / resolved@.len() as int,
    {
        if resolved.len() == 0 {
            return 0;
        }
        let mut sum: u128 = 0;
        let mut i: usize = 0;
        while i < resolved.len()
            invariant
                i <= resolved@.len(),
                forall|k: int| 0 <= k < resolved@.len()
                    ==> (#[trigger] resolved@[k]).confidence <= 1000,
                sum <= 1000 * (i as u128),
                sum == sum_confidences(resolved@, i as int),
            decreases resolved@.len() - i,
        {
            sum = sum + (resolved[i].confidence as u128);
            i += 1;
        }
        let n = resolved.len() as u128;
        let avg = sum / n;
        proof {
            assert(avg <= 1000) by (nonlinear_arith)
                requires
                    sum <= 1000 * n,
                    n > 0,
                    avg == sum / n,
            ;
        }
        avg as u32
    }
}

} // verus!
