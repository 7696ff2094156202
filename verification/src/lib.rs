//! Analysis core of a natural-language-to-IR pipeline: an intent model with
//! an ambiguity set, an ambiguity-resolution cascade, a semantic model,
//! a type model with a conversion-cost table and memory layout planning,
//! a control/data-flow model with dominance and natural-loop analysis, and
//! an error-recovery strategy selector.
//!
//! Confidence scores, rule weights, and strategy success rates are carried
//! as integer thousandths of a unit (a confidence of 700 stands for 0.700),
//! so that every score computation is exact integer arithmetic.

pub mod ambiguity_resolver;
pub mod error_recovery;
pub mod flow_analyzer;
pub mod intent_extractor;
pub mod json;
pub mod llvm_generator;
pub mod semantic_analyzer;
pub mod syscall_interface;
pub mod text;
pub mod type_inferencer;

use vstd::prelude::*;

verus! {

} // verus!
