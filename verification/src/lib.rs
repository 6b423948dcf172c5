//! The output of a review run: the human-readable report, in which the token
//! and time accounting is kept apart from what the models said, and the report
//! as a JSON document.
//!
//! Nothing is printed here. A section of the report is a [`page::Page`], whose
//! lines are for the caller to send to the standard output or the standard
//! error.

pub mod commit;
pub mod document;
pub mod findings;
pub mod findings_laws;
pub mod format;
pub mod json;
pub mod laws;
pub mod layout_laws;
pub mod page;
pub mod plan;
pub mod plan_laws;
pub mod reading_laws;
pub mod report;
pub mod report_laws;
pub mod stats;
pub mod stats_laws;
pub mod style;
pub mod text;
pub mod text_laws;
pub mod usage;
pub mod usage_laws;
pub mod wrap;
pub mod wrap_laws;

pub use document::{print_report_json, write_report_json};
pub use report::{eprint_run_header, print_report_human};
pub use stats::eprint_apply_stats;
