use doi_bibtex::{
    decimal, is_header, outcome_message, request_url, trim, FetchOutcome, WorkerMessage,
    BIBTEX_ACCEPT, OUTPUT_FILE,
};

#[test]
fn trim_removes_unicode_white_space() {
    assert_eq!(trim("  a b \n"), "a b");
    assert_eq!(trim("\u{2003}x\u{205f}"), "x");
    assert_eq!(trim(" \t "), "");
    assert_eq!(trim(""), "");
    assert_eq!(trim("\u{200b}x"), "\u{200b}x");
}

#[test]
fn header_token_ignores_ascii_case() {
    assert!(is_header("doi"));
    assert!(is_header("DoI"));
    assert!(!is_header("do"));
    assert!(!is_header(" doi"));
    assert!(!is_header("dоi"));
}

#[test]
fn decimal_rendering() {
    assert_eq!(decimal(0), "0");
    assert_eq!(decimal(7), "7");
    assert_eq!(decimal(404), "404");
    assert_eq!(decimal(65535), "65535");
}

#[test]
fn outcome_lines() {
    assert_eq!(
        outcome_message("10.1/a", &FetchOutcome::Success("b".to_string())),
        Some(WorkerMessage::Log("✔ OK: 10.1/a".to_string()))
    );
    assert_eq!(
        outcome_message("10.1/a", &FetchOutcome::HttpFailure(503)),
        Some(WorkerMessage::Log("✖ Failed: 10.1/a (Status 503)".to_string()))
    );
    assert_eq!(
        outcome_message("10.1/a", &FetchOutcome::TransportError),
        Some(WorkerMessage::Log("✖ Error: 10.1/a".to_string()))
    );
    assert_eq!(outcome_message("10.1/a", &FetchOutcome::Unreadable), None);
}

#[test]
fn request_address_and_constants() {
    assert_eq!(request_url("10.1000/xyz123"), "https://doi.org/10.1000/xyz123");
    assert_eq!(BIBTEX_ACCEPT, "application/x-bibtex; charset=utf-8");
    assert_eq!(OUTPUT_FILE, "references.bib");
}
