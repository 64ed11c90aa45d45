use crew_api::extract::{extract_last, RecordExtractor, StdoutDrain};
use crew_api::handler::{
    conclude, handle_body, outcome_of, respond, FailureReason, ProcessOutcome, ResponseBody, RunReport, Step,
};
use crew_api::lines::{decode_line, LineSplitter};
use crew_api::request::{CrewRequest, RequestError};

fn json(text: &str) -> serde_json::Value {
    serde_json::from_str(text).unwrap()
}

fn strings(lines: &[&str]) -> Vec<String> {
    lines.iter().map(|l| l.to_string()).collect()
}

fn error_text(body: &ResponseBody) -> String {
    match body {
        ResponseBody::Error(m) => m.clone(),
        ResponseBody::Record(_) => panic!("expected an error body"),
    }
}

#[test]
fn splitter_hands_out_complete_lines_only() {
    let mut s = LineSplitter::new();
    let first = s.push(b"ab\ncd");
    assert_eq!(first, vec![b"ab".to_vec()]);
    let second = s.push(b"e\n\nf");
    assert_eq!(second, vec![b"cde".to_vec(), Vec::new()]);
    assert_eq!(s.finish(), Some(b"f".to_vec()));
}

#[test]
fn splitter_without_trailing_fragment() {
    let mut s = LineSplitter::new();
    assert_eq!(s.push(b"x\n"), vec![b"x".to_vec()]);
    assert_eq!(s.push(b""), Vec::<Vec<u8>>::new());
    assert_eq!(s.finish(), None);
}

#[test]
fn decode_drops_carriage_return_and_rejects_bad_utf8() {
    assert_eq!(decode_line(b"line\r".to_vec()), Some("line".to_string()));
    assert_eq!(decode_line(b"a\rb".to_vec()), Some("a\rb".to_string()));
    assert_eq!(decode_line(vec![0xff, 0xfe]), None);
    assert_eq!(decode_line(Vec::new()), Some(String::new()));
}

#[test]
fn last_match_wins_over_lines() {
    let lines = strings(&[
        "{\"x\":1}",
        "not json",
        "{\"image_path_1\":\"a\",\"image_path_2\":\"b\"}",
        "{\"image_path_1\":\"c\",\"image_path_2\":\"d\"}",
    ]);
    let record = extract_last(&lines);
    assert_eq!(record, Some(json("{\"image_path_1\":\"c\",\"image_path_2\":\"d\"}")));
    let response = conclude(RunReport::Exited { record, exit_code: Some(0) });
    assert_eq!(response.status, 200);
    match response.body {
        ResponseBody::Record(v) => {
            assert_eq!(v.to_string(), "{\"image_path_1\":\"c\",\"image_path_2\":\"d\"}")
        }
        ResponseBody::Error(_) => panic!("expected the record"),
    }
}

#[test]
fn later_line_without_both_keys_keeps_record() {
    let lines = strings(&[
        "{\"image_path_1\":\"a\",\"image_path_2\":\"b\",\"n\":3}",
        "{\"image_path_1\":\"only one\"}",
        "[1,2]",
        "\"image_path_1 image_path_2\"",
    ]);
    assert_eq!(
        extract_last(&lines),
        Some(json("{\"image_path_1\":\"a\",\"image_path_2\":\"b\",\"n\":3}"))
    );
}

#[test]
fn no_lines_no_record() {
    assert_eq!(extract_last(&Vec::new()), None);
    assert_eq!(extract_last(&strings(&["{\"x\":1}", "hello"])), None);
}

#[test]
fn extractor_takes_parsed_values() {
    let mut e = RecordExtractor::new();
    e.offer_value(Some(json("{\"image_path_1\":1,\"image_path_2\":null}")));
    e.offer_value(None);
    e.offer_value(Some(json("{\"image_path_2\":\"z\"}")));
    assert_eq!(e.into_record(), Some(json("{\"image_path_1\":1,\"image_path_2\":null}")));
}

#[test]
fn extractor_skips_invalid_utf8_line() {
    let mut e = RecordExtractor::new();
    e.offer_raw_line(b"{\"image_path_1\":\"a\",\"image_path_2\":\"b\"}\r".to_vec());
    let mut bad = b"{\"image_path_1\":\"c\",\"image_path_2\":\"".to_vec();
    bad.push(0xff);
    bad.extend_from_slice(b"\"}");
    e.offer_raw_line(bad);
    assert_eq!(e.into_record(), Some(json("{\"image_path_1\":\"a\",\"image_path_2\":\"b\"}")));
}

#[test]
fn drain_over_split_chunks() {
    let mut d = StdoutDrain::new();
    let out = d.feed(b"{\"x\":1}\nnot js");
    assert_eq!(out, vec![b"{\"x\":1}".to_vec()]);
    let out = d.feed(b"on\n{\"image_path_1\":\"a\",\"ima");
    assert_eq!(out, vec![b"not json".to_vec()]);
    let out = d.feed(b"ge_path_2\":\"b\"}\n{\"image_path_1\":\"c\",\"image_path_2\":\"d\"}\n");
    assert_eq!(out.len(), 2);
    assert_eq!(d.finish(), Some(json("{\"image_path_1\":\"c\",\"image_path_2\":\"d\"}")));
}

#[test]
fn drain_counts_trailing_fragment() {
    let mut d = StdoutDrain::new();
    d.feed(b"{\"image_path_1\":\"a\",\"image_path_2\":\"b\"}\n");
    d.feed(b"{\"image_path_1\":\"e\",\"image_path_2\":\"f\"}");
    assert_eq!(d.finish(), Some(json("{\"image_path_1\":\"e\",\"image_path_2\":\"f\"}")));
}

#[test]
fn drain_of_empty_stream() {
    let d = StdoutDrain::new();
    assert_eq!(d.finish(), None);
}

#[test]
fn no_record_is_error_whatever_exit_code() {
    for code in [Some(0), Some(1), Some(-9), None] {
        let r = conclude(RunReport::Exited { record: None, exit_code: code });
        assert_eq!(r.status, 500);
        assert_eq!(error_text(&r.body), "No JSON output from crew");
    }
}

#[test]
fn spawn_failure_is_error() {
    assert!(matches!(
        outcome_of(RunReport::SpawnFailed),
        ProcessOutcome::Failure(FailureReason::SpawnError)
    ));
    assert!(matches!(
        outcome_of(RunReport::Exited { record: None, exit_code: Some(0) }),
        ProcessOutcome::Failure(FailureReason::NoRecord)
    ));
    assert!(matches!(
        outcome_of(RunReport::TimedOut),
        ProcessOutcome::Failure(FailureReason::TimedOut)
    ));
    assert_eq!(conclude(RunReport::TimedOut).status, 500);
    let r = conclude(RunReport::SpawnFailed);
    assert_eq!(r.status, 500);
    assert_eq!(error_text(&r.body), "No JSON output from crew");
}

#[test]
fn success_outcome_is_ok_with_record() {
    let r = respond(ProcessOutcome::Success(json("{\"image_path_1\":\"p\",\"image_path_2\":\"q\"}")));
    assert_eq!(r.status, 200);
    assert!(matches!(r.body, ResponseBody::Record(v) if v == json("{\"image_path_1\":\"p\",\"image_path_2\":\"q\"}")));
}

#[test]
fn valid_body_runs_with_json_argument() {
    let body = "{\"current_year\":\"2024\",\"address\":\"Rua A, 1\",\"first_date\":\"2020-01-01\",\"second_date\":\"2021-01-01\",\"extra\":5}";
    match handle_body(body) {
        Step::Run(arg) => assert_eq!(
            arg,
            "{\"address\":\"Rua A, 1\",\"first_date\":\"2020-01-01\",\"second_date\":\"2021-01-01\",\"current_year\":\"2024\"}"
        ),
        Step::Reject(_) => panic!("expected a run"),
    }
}

#[test]
fn argument_escapes_field_text() {
    let req = CrewRequest {
        address: "say \"hi\"\n".to_string(),
        first_date: "a\\b".to_string(),
        second_date: String::new(),
        current_year: "é".to_string(),
    };
    let arg = req.to_argument();
    assert_eq!(
        arg,
        "{\"address\":\"say \\\"hi\\\"\\n\",\"first_date\":\"a\\\\b\",\"second_date\":\"\",\"current_year\":\"é\"}"
    );
    let back = CrewRequest::parse(&arg).unwrap();
    assert_eq!(back.address, req.address);
    assert_eq!(back.first_date, req.first_date);
    assert_eq!(back.second_date, req.second_date);
    assert_eq!(back.current_year, req.current_year);
}

#[test]
fn missing_field_is_rejected_with_400() {
    let body = "{\"address\":\"x\",\"first_date\":\"a\",\"second_date\":\"b\"}";
    assert!(matches!(CrewRequest::parse(body), Err(RequestError::MissingField)));
    match handle_body(body) {
        Step::Reject(r) => {
            assert_eq!(r.status, 400);
            assert_eq!(error_text(&r.body), "Request body lacks a required string field");
        }
        Step::Run(_) => panic!("a malformed body must not start the process"),
    }
}

#[test]
fn non_string_field_is_rejected() {
    let body = "{\"address\":\"x\",\"first_date\":\"a\",\"second_date\":\"b\",\"current_year\":2024}";
    assert!(matches!(CrewRequest::parse(body), Err(RequestError::MissingField)));
    assert!(matches!(CrewRequest::parse("[\"address\"]"), Err(RequestError::MissingField)));
}

#[test]
fn non_json_body_is_rejected_with_400() {
    assert!(matches!(CrewRequest::parse("address=x"), Err(RequestError::NotJson)));
    match handle_body("") {
        Step::Reject(r) => {
            assert_eq!(r.status, 400);
            assert_eq!(error_text(&r.body), "Request body is not JSON");
        }
        Step::Run(_) => panic!("a malformed body must not start the process"),
    }
}

#[test]
fn same_body_runs_each_time() {
    let body = "{\"address\":\"x\",\"first_date\":\"a\",\"second_date\":\"b\",\"current_year\":\"c\"}";
    let first = handle_body(body);
    let second = handle_body(body);
    match (first, second) {
        (Step::Run(a), Step::Run(b)) => assert_eq!(a, b),
        _ => panic!("each request must start the process"),
    }
}
