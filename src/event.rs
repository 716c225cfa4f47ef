//! The progress events a conversion emits, the outcome of one resolution
//! request, and the log lines that tell them apart.
use vstd::prelude::*;

use crate::text::{decimal, decimal_of};

verus! {

/// The fixed name of the bibliography file a run writes.
pub const OUTPUT_FILE: &'static str = "references.bib";

/// The media type asked of the resolution service.
pub const BIBTEX_ACCEPT: &'static str = "application/x-bibtex; charset=utf-8";

/// A progress event sent from the conversion worker to its front end.
#[derive(Debug, Clone, PartialEq, Eq)]
pub enum WorkerMessage {
    Log(String),
    Progress(usize),
    Total(usize),
    Finished,
}

/// What a progress event means.
pub ghost enum EventView {
    Log(Seq<char>),
    Progress(nat),
    Total(nat),
    Finished,
}

impl View for WorkerMessage {
    type V = EventView;

    open spec fn view(&self) -> EventView {
        match self {
            WorkerMessage::Log(s) => EventView::Log(s@),
            WorkerMessage::Progress(n) => EventView::Progress(*n as nat),
            WorkerMessage::Total(n) => EventView::Total(*n as nat),
            WorkerMessage::Finished => EventView::Finished,
        }
    }
}

/// The outcome of resolving one DOI.
#[derive(Debug, Clone, PartialEq, Eq)]
pub enum FetchOutcome {
    /// A success status with a body readable as text.
    Success(String),
    /// A status outside the success range.
    HttpFailure(u16),
    /// No response at all.
    TransportError,
    /// A success status whose body could not be read as text.
    Unreadable,
}

pub ghost enum OutcomeView {
    Success(Seq<char>),
    HttpFailure(u16),
    TransportError,
    Unreadable,
}

impl View for FetchOutcome {
    type V = OutcomeView;

    open spec fn view(&self) -> OutcomeView {
        match self {
            FetchOutcome::Success(s) => OutcomeView::Success(s@),
            FetchOutcome::HttpFailure(c) => OutcomeView::HttpFailure(*c),
            FetchOutcome::TransportError => OutcomeView::TransportError,
            FetchOutcome::Unreadable => OutcomeView::Unreadable,
        }
    }
}

pub open spec fn reading_line(path: Seq<char>) -> Seq<char> {
    "Reading file: "@ + path
}

pub open spec fn open_error_line(err: Seq<char>) -> Seq<char> {
    "Error opening file: "@ + err
}

pub open spec fn saved_line() -> Seq<char> {
    "Saved to 'references.bib'"@
}

pub open spec fn ok_line(doi: Seq<char>) -> Seq<char> {
    "✔ OK: "@ + doi
}

pub open spec fn failed_line(doi: Seq<char>, status: u16) -> Seq<char> {
    "✖ Failed: "@ + doi + " (Status "@ + decimal_of(status as nat) + ")"@
}

pub open spec fn error_line(doi: Seq<char>) -> Seq<char> {
    "✖ Error: "@ + doi
}

/// The log line, if any, that reports outcome `o` for `doi`.
pub open spec fn outcome_line(doi: Seq<char>, o: OutcomeView) -> Option<Seq<char>> {
    match o {
        OutcomeView::Success(_) => Some(ok_line(doi)),
        OutcomeView::HttpFailure(status) => Some(failed_line(doi, status)),
        OutcomeView::TransportError => Some(error_line(doi)),
        OutcomeView::Unreadable => None,
    }
}

/// The log event, if any, for a line.
pub open spec fn line_events(line: Option<Seq<char>>) -> Seq<EventView> {
    match line {
        Some(l) => seq![EventView::Log(l)],
        None => seq![],
    }
}

/// The events of an optional message.
pub open spec fn opt_message_view(m: Option<WorkerMessage>) -> Seq<EventView> {
    match m {
        Some(x) => seq![x@],
        None => seq![],
    }
}

/// HTTP's success range of status codes.
pub open spec fn is_success_status(status: u16) -> bool {
    200 <= status < 300
}

/// The address that resolves `doi`.
pub open spec fn url_of(doi: Seq<char>) -> Seq<char> {
    "https://doi.org/"@ + doi
}

/// The message that opens every run.
pub fn reading_message(path: &str) -> (r: WorkerMessage)
    ensures
        r@ == EventView::Log(reading_line(path@)),
{
    WorkerMessage::Log(String::from_str("Reading file: ").concat(path))
}

/// The messages that end a run whose input could not be opened; `err`
/// describes the failure.
pub fn open_failure_messages(err: &str) -> (r: Vec<WorkerMessage>)
    ensures
        r@.map_values(|m: WorkerMessage| m@) == seq![
            EventView::Log(open_error_line(err@)),
            EventView::Finished,
        ],
{
    let r = vec![WorkerMessage::Log(String::from_str("Error opening file: ").concat(err)), WorkerMessage::Finished];
    assert(r@.map_values(|m: WorkerMessage| m@) =~= seq![
        EventView::Log(open_error_line(err@)),
        EventView::Finished,
    ]);
    r
}

/// The log message that reports `outcome` for `doi`; none for an unreadable body.
pub fn outcome_message(doi: &str, outcome: &FetchOutcome) -> (r: Option<WorkerMessage>)
    ensures
        opt_message_view(r) == line_events(outcome_line(doi@, outcome@)),
{
    match outcome {
        FetchOutcome::Success(_) => Some(WorkerMessage::Log(String::from_str("✔ OK: ").concat(doi))),
        FetchOutcome::HttpFailure(status) => {
            let code = decimal(*status);
            let line = String::from_str("✖ Failed: ").concat(doi).concat(" (Status ").concat(
                code.as_str(),
            ).concat(")");
            Some(WorkerMessage::Log(line))
        },
        FetchOutcome::TransportError => Some(
            WorkerMessage::Log(String::from_str("✖ Error: ").concat(doi)),
        ),
        FetchOutcome::Unreadable => None,
    }
}

/// The address of the resolution request for `doi`.
pub fn request_url(doi: &str) -> (r: String)
    ensures
        r@ == url_of(doi@),
{
    String::from_str("https://doi.org/").concat(doi)
}

/// Classifies a response by its status code and, where it was read, its body text.
pub fn classify_response(status: u16, body: Option<String>) -> (r: FetchOutcome)
    ensures
        !is_success_status(status) ==> r@ == OutcomeView::HttpFailure(status),
        is_success_status(status) ==> r@ == match body {
            Some(t) => OutcomeView::Success(t@),
            None => OutcomeView::Unreadable,
        },
{
    if 200 <= status && status < 300 {
        match body {
            Some(t) => FetchOutcome::Success(t),
            None => FetchOutcome::Unreadable,
        }
    } else {
        FetchOutcome::HttpFailure(status)
    }
}

} // verus!
