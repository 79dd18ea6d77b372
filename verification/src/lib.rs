use vstd::prelude::*;

pub mod text;
pub mod fingerprint;
pub mod meta;
pub mod status;
pub mod grouping_note;
pub mod severity;
pub mod type_aware_degrade;
pub mod cli;
pub mod similar_code_cli;
pub mod similar_code_help;
pub mod registry;
pub mod type_aware;
pub mod diff_filter;
pub mod pr_comment;
pub mod sarif;
pub mod runtime_support;
pub mod semantic_queries;
pub mod codeclimate;
pub mod review;
pub mod gate_outcome_text;
pub mod request_outcome_text;
pub mod baseline_advisory_text;
pub mod requests;
pub mod compact;
pub mod ci;
pub mod trace_error;
pub mod trace_path;
pub mod dead_code_queries;
pub mod semantic_decode;
pub mod meta_merge;
pub mod dead_code_refine;
pub mod summary_order;

verus! {

} // verus!
pub mod symbol_trace;
