//! Deterministic API-failure diagnoser.
//!
//! A case and its log are normalised into evidence, a fixed-order rules
//! engine turns evidence into a diagnosis, and renderers turn a diagnosis
//! into a human report or an LLM prompt template.

pub mod cases;
pub mod diagnose;
pub mod evidence;
pub mod llm_prompt;
pub mod prose;
pub mod report;
pub mod text;

pub use cases::{Case, CaseError, KNOWN_CASES};
pub use diagnose::{diagnose, Diagnosis, Severity, SeveritySource};
pub use evidence::{collect_evidence, parse_log, Evidence};
pub use llm_prompt::render_prompt;
pub use report::{render_report, render_short};
