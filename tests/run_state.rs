use doi_bibtex::{RunState, WorkerMessage};

#[test]
fn new_state_is_idle() {
    let s = RunState::new();
    assert!(s.csv_path.is_none());
    assert_eq!(s.logs, "");
    assert!(!s.is_processing);
    assert!(!s.can_start());
}

#[test]
fn start_needs_a_file_and_no_run() {
    let mut s = RunState::new();
    assert_eq!(s.start(), None);
    s.select_file("a.csv".to_string());
    assert_eq!(s.logs, "Selected: a.csv\n");
    assert!(s.can_start());
    s.processed_count = 4;
    assert_eq!(s.start(), Some("a.csv".to_string()));
    assert!(s.is_processing);
    assert_eq!(s.logs, "");
    assert_eq!(s.processed_count, 0);
    assert_eq!(s.start(), None);
    s.select_file("b.csv".to_string());
    assert_eq!(s.csv_path, Some("a.csv".to_string()));
}

#[test]
fn events_update_the_state() {
    let mut s = RunState::new();
    s.select_file("a.csv".to_string());
    s.start();
    s.apply(WorkerMessage::Log("Reading file: a.csv".to_string()));
    s.apply(WorkerMessage::Total(2));
    s.apply(WorkerMessage::Progress(1));
    assert_eq!(s.total_count, 2);
    assert_eq!(s.processed_count, 1);
    assert!(s.is_processing);
    s.apply(WorkerMessage::Finished);
    assert!(!s.is_processing);
    assert_eq!(s.logs, "Reading file: a.csv\n\n--- DONE! Check references.bib ---\n");
}
