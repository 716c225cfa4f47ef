//! Conversion of DOI lists into BibTeX bibliographies: the row rules, the
//! per-row decisions of the conversion worker, the progress events it emits
//! and the run state that a front end keeps from those events.
pub mod event;
pub mod model;
pub mod run_state;
pub mod text;
pub mod worker;

pub use event::{
    classify_response, open_failure_messages, outcome_message, reading_message, request_url,
    FetchOutcome, WorkerMessage, BIBTEX_ACCEPT, OUTPUT_FILE,
};
pub use run_state::RunState;
pub use text::{decimal, is_header, trim};
pub use worker::{doi_candidate, Conversion, RowStep};
