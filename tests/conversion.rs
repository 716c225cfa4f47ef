use doi_bibtex::{
    classify_response, doi_candidate, open_failure_messages, reading_message, Conversion,
    FetchOutcome, WorkerMessage,
};

/// Drives a whole run over `data`, resolving each DOI with `resolve`, and
/// returns every event sent together with the output text.
fn run_with(
    path: &str,
    data: &[u8],
    resolve: &dyn Fn(&str) -> FetchOutcome,
    calls: &mut Vec<String>,
) -> (Vec<WorkerMessage>, String) {
    let mut events = vec![reading_message(path)];
    let mut conv = Conversion::new(data);
    events.push(conv.total_message());
    while let Some(step) = conv.advance() {
        events.push(step.progress);
        if let Some(doi) = step.doi {
            calls.push(doi.clone());
            if let Some(m) = conv.settle(resolve(&doi)) {
                events.push(m);
            }
        }
    }
    let text = conv.output_text();
    events.extend(conv.finish(true));
    (events, text)
}

fn logs(events: &[WorkerMessage]) -> Vec<String> {
    events
        .iter()
        .filter_map(|e| match e {
            WorkerMessage::Log(t) => Some(t.clone()),
            _ => None,
        })
        .collect()
}

fn progress(events: &[WorkerMessage]) -> Vec<usize> {
    events
        .iter()
        .filter_map(|e| match e {
            WorkerMessage::Progress(n) => Some(*n),
            _ => None,
        })
        .collect()
}

fn totals(events: &[WorkerMessage]) -> Vec<usize> {
    events
        .iter()
        .filter_map(|e| match e {
            WorkerMessage::Total(n) => Some(*n),
            _ => None,
        })
        .collect()
}

#[test]
fn single_success_is_written_and_logged() {
    let mut calls = Vec::new();
    let (events, text) = run_with(
        "in.csv",
        b"10.1000/xyz123\n",
        &|_| FetchOutcome::Success("@article{x,...}".to_string()),
        &mut calls,
    );
    assert_eq!(text, "@article{x,...}\n\n");
    assert!(logs(&events).contains(&"✔ OK: 10.1000/xyz123".to_string()));
    assert_eq!(calls, vec!["10.1000/xyz123".to_string()]);
    assert_eq!(
        events,
        vec![
            WorkerMessage::Log("Reading file: in.csv".to_string()),
            WorkerMessage::Total(1),
            WorkerMessage::Progress(1),
            WorkerMessage::Log("✔ OK: 10.1000/xyz123".to_string()),
            WorkerMessage::Log("Saved to 'references.bib'".to_string()),
            WorkerMessage::Finished,
        ]
    );
}

#[test]
fn header_row_then_http_failure() {
    let mut calls = Vec::new();
    let (events, text) =
        run_with("in.csv", b"DOI\n10.1/a\n", &|_| FetchOutcome::HttpFailure(404), &mut calls);
    assert_eq!(totals(&events), vec![2]);
    assert_eq!(progress(&events), vec![1, 2]);
    assert!(logs(&events).contains(&"✖ Failed: 10.1/a (Status 404)".to_string()));
    assert_eq!(text, "");
    assert_eq!(calls, vec!["10.1/a".to_string()]);
}

#[test]
fn missing_input_ends_the_run() {
    let mut events = vec![reading_message("nope.csv")];
    events.extend(open_failure_messages("No such file or directory (os error 2)"));
    assert_eq!(
        events,
        vec![
            WorkerMessage::Log("Reading file: nope.csv".to_string()),
            WorkerMessage::Log("Error opening file: No such file or directory (os error 2)".to_string()),
            WorkerMessage::Finished,
        ]
    );
    assert!(totals(&events).is_empty());
    assert!(progress(&events).is_empty());
}

#[test]
fn transport_errors_on_every_row() {
    let mut calls = Vec::new();
    let (events, text) =
        run_with("in.csv", b"10.1/a\n10.1/b\n10.1/c\n", &|_| FetchOutcome::TransportError, &mut calls);
    let errors: Vec<String> =
        logs(&events).into_iter().filter(|l| l.starts_with("✖ Error:")).collect();
    assert_eq!(errors, vec!["✖ Error: 10.1/a", "✖ Error: 10.1/b", "✖ Error: 10.1/c"]);
    assert_eq!(text, "");
    assert_eq!(events.last(), Some(&WorkerMessage::Finished));
    assert_eq!(events.iter().filter(|e| **e == WorkerMessage::Finished).count(), 1);
}

#[test]
fn totals_count_malformed_rows() {
    let mut calls = Vec::new();
    let (events, _) = run_with(
        "in.csv",
        b"a,b\nc\n10.1/x,y\n",
        &|_| FetchOutcome::TransportError,
        &mut calls,
    );
    assert_eq!(totals(&events), vec![3]);
    assert_eq!(progress(&events), vec![1, 2, 3]);
    assert_eq!(calls, vec!["a".to_string(), "10.1/x".to_string()]);
}

#[test]
fn empty_input_has_no_rows() {
    let mut calls = Vec::new();
    let (events, text) = run_with("e.csv", b"", &|_| FetchOutcome::TransportError, &mut calls);
    assert_eq!(totals(&events), vec![0]);
    assert!(progress(&events).is_empty());
    assert_eq!(text, "");
    assert_eq!(events.last(), Some(&WorkerMessage::Finished));
}

#[test]
fn quoted_first_field_is_read_whole() {
    let mut calls = Vec::new();
    run_with("q.csv", b"\"10.1/a,b\",z\n", &|_| FetchOutcome::Unreadable, &mut calls);
    assert_eq!(calls, vec!["10.1/a,b".to_string()]);
}

#[test]
fn same_outcomes_give_same_output() {
    let stub = |d: &str| {
        if d.ends_with('a') {
            FetchOutcome::Success(format!("  @misc{{{},}}\n", d))
        } else {
            FetchOutcome::HttpFailure(500)
        }
    };
    let mut c1 = Vec::new();
    let mut c2 = Vec::new();
    let data = b"10.1/a\n10.1/b\n  \n10.2/a\n";
    let first = run_with("x.csv", data, &stub, &mut c1);
    let second = run_with("x.csv", data, &stub, &mut c2);
    assert_eq!(first, second);
    assert_eq!(first.1, "@misc{10.1/a,}\n\n@misc{10.2/a,}\n\n");
}

#[test]
fn skipped_rows_only_advance_progress() {
    let mut calls = Vec::new();
    let (events, _) = run_with(
        "s.csv",
        b"\"\"\n   \nDoi\ndoi\nDOI\n",
        &|_| FetchOutcome::TransportError,
        &mut calls,
    );
    assert!(calls.is_empty());
    assert_eq!(progress(&events), vec![1, 2, 3, 4, 5]);
    assert_eq!(
        logs(&events),
        vec!["Reading file: s.csv".to_string(), "Saved to 'references.bib'".to_string()]
    );
}

#[test]
fn unreadable_body_is_silent() {
    let mut calls = Vec::new();
    let (events, text) = run_with("u.csv", b"10.1/a\n", &|_| FetchOutcome::Unreadable, &mut calls);
    assert_eq!(calls.len(), 1);
    assert_eq!(text, "");
    assert_eq!(
        logs(&events),
        vec!["Reading file: u.csv".to_string(), "Saved to 'references.bib'".to_string()]
    );
}

#[test]
fn finish_without_saving() {
    let mut conv = Conversion::new(b"");
    assert!(conv.advance().is_none());
    assert_eq!(conv.finish(false), vec![WorkerMessage::Finished]);
}

#[test]
fn candidate_rules() {
    assert_eq!(doi_candidate("  10.5/q \t"), Some("10.5/q".to_string()));
    assert_eq!(doi_candidate("\u{3000}10.5/q\u{a0}"), Some("10.5/q".to_string()));
    assert_eq!(doi_candidate(""), None);
    assert_eq!(doi_candidate(" \n "), None);
    assert_eq!(doi_candidate(" dOI "), None);
    assert_eq!(doi_candidate("doix"), Some("doix".to_string()));
    assert_eq!(doi_candidate("ＤOI"), Some("ＤOI".to_string()));
}

#[test]
fn response_classification() {
    assert_eq!(
        classify_response(200, Some("@a{}".to_string())),
        FetchOutcome::Success("@a{}".to_string())
    );
    assert_eq!(classify_response(299, None), FetchOutcome::Unreadable);
    assert_eq!(classify_response(199, Some("x".to_string())), FetchOutcome::HttpFailure(199));
    assert_eq!(classify_response(300, None), FetchOutcome::HttpFailure(300));
    assert_eq!(classify_response(404, None), FetchOutcome::HttpFailure(404));
}
