use serde_json::Value;
use voice_ai_orchestrator::entities::{
    extract_entities, extract_phone_like_values, known_organisations, normalize_email_like,
    normalize_url_like, unique,
};
use voice_ai_orchestrator::tracking::{
    build_intelligence, elapsed_seconds, intelligence_value, now_timestamp, CallIntelligence,
    CallStart, CallTrackingState, FinalCallMetrics, JsonlCallTrackingRepository,
};

fn json(text: &str) -> Value {
    serde_json::from_str(text).unwrap()
}

fn strings(list: &[&str]) -> Vec<String> {
    list.iter().map(|s| s.to_string()).collect()
}

#[test]
fn telephone_numbers_have_seven_digits() {
    assert_eq!(
        extract_phone_like_values("call +1 (555) 123-4567, or 12-34-56 now."),
        strings(&["+1 (555) 123-4567"])
    );
    assert_eq!(extract_phone_like_values("5551234x"), strings(&["5551234"]));
    assert_eq!(extract_phone_like_values("555123x"), Vec::<String>::new());
}

#[test]
fn a_number_at_the_very_end_is_not_finished() {
    assert_eq!(extract_phone_like_values("call 555 123 4567"), Vec::<String>::new());
}

#[test]
fn web_addresses_are_found() {
    assert_eq!(normalize_url_like("(WWW.example.com),"), Some("WWW.example.com".to_string()));
    assert_eq!(normalize_url_like("https://x"), Some("https://x".to_string()));
    assert_eq!(normalize_url_like("a.bcd"), Some("a.bcd".to_string()));
    assert_eq!(normalize_url_like("a.bc"), None);
    assert_eq!(normalize_url_like("a.\u{e9}b"), Some("a.\u{e9}b".to_string()));
    assert_eq!(normalize_url_like("me@example.com"), None);
    assert_eq!(normalize_url_like("example."), None);
    assert_eq!(normalize_url_like("...\"(("), None);
}

#[test]
fn mail_addresses_are_found() {
    let found = normalize_email_like("\"(me@example.com).").unwrap();
    assert_eq!(normalize_email_like(&found), Some(found));
    assert_eq!(normalize_email_like("<me@example.com>"), Some("<me@example.com>".to_string()));
    assert_eq!(normalize_email_like("(me@example.com)."), Some("me@example.com".to_string()));
    assert_eq!(normalize_email_like("me@example"), None);
    assert_eq!(normalize_email_like("example.com"), None);
}

#[test]
fn organisations_are_known_in_their_order() {
    assert_eq!(
        known_organisations("ZELLE, the bank of America and then amazon"),
        strings(&["Amazon", "Bank of America", "Zelle"])
    );
    assert_eq!(known_organisations("first"), strings(&["IRS"]));
    assert_eq!(known_organisations("hello"), Vec::<String>::new());
}

#[test]
fn repetitions_are_taken_out() {
    let once = unique(strings(&["b", "a", "b", "", "a"]));
    assert_eq!(once, strings(&["b", "a", ""]));
    assert_eq!(unique(once.clone()), once);
    assert_eq!(unique(vec![]), Vec::<String>::new());
}

#[test]
fn findings_are_written() {
    let found = extract_entities("user: mail me@x.com me@x.com or 1234567. See www.x.com, PayPal");
    assert_eq!(
        found.to_json(),
        json(
            r#"{"phones": ["1234567"], "urls": ["www.x.com"], "emails": ["me@x.com"],
                "organisations": ["PayPal"]}"#
        )
    );
}

#[test]
fn the_summary_shows_the_start_of_a_call() {
    let draft = build_intelligence("CA", "refund", "user: a\r\nassistant: b\nc\nd\ne");
    assert_eq!(draft.summary, "Observed refund call. user: a assistant: b c d");
    assert_eq!((draft.impersonated_organisation, draft.confidence_percent), (None, 45));
    let silent = build_intelligence("CA", "refund", " \n");
    assert_eq!(silent.summary, "Call CA ended before a transcript was captured.");
    assert_eq!(silent.confidence_percent, 10);
    let named = build_intelligence("CA", "refund", "user: Zelle and Apple");
    assert_eq!(named.impersonated_organisation, Some("Apple".to_string()));
    assert_eq!(named.confidence_percent, 72);
    let long = "x".repeat(121);
    assert_eq!(build_intelligence("CA", "refund", &long).confidence_percent, 72);
    assert_eq!(build_intelligence("CA", "refund", &long[..120]).confidence_percent, 45);
    let blank = " ".repeat(121);
    assert_eq!(build_intelligence("CA", "refund", &blank).confidence_percent, 72);
}

#[test]
fn times_are_written() {
    assert_eq!(now_timestamp(12, 7), "12.7");
    assert_eq!(now_timestamp(0, 0), "0.0");
    assert_eq!(elapsed_seconds(0), 1);
    assert_eq!(elapsed_seconds(1), 1);
    assert_eq!(elapsed_seconds(90), 90);
}

fn call() -> CallTrackingState {
    CallTrackingState::new(
        CallStart {
            call_sid: "CA".to_string(),
            stream_sid: "MZ".to_string(),
            persona: "Bob".to_string(),
            scam_type: "refund".to_string(),
        },
        "10.0".to_string(),
    )
}

#[test]
fn blank_text_is_not_kept() {
    let mut call = call();
    call.record_user_text(" \t".to_string(), 5, "11.0".to_string());
    assert_eq!(call.transcript_text(), "");
    assert!(call.live_entities.is_none());
}

#[test]
fn findings_follow_the_transcript() {
    let mut call = call();
    call.record_user_text("This is Amazon.".to_string(), 5, "11.0".to_string());
    assert_eq!(call.live_entities.as_ref().unwrap().organisations, strings(&["Amazon"]));
    call.record_assistant_text("Not PayPal?".to_string(), 9, "12.0".to_string());
    assert_eq!(
        call.live_entities.as_ref().unwrap().organisations,
        strings(&["Amazon", "PayPal"])
    );
    assert_eq!(call.transcript_text(), "user: This is Amazon.\nassistant: Not PayPal?");
}

#[test]
fn a_call_leaves_its_records() {
    let mut call = call();
    call.record_user_text(" This is Amazon".to_string(), 5, "11.0".to_string());
    let metrics = FinalCallMetrics {
        generated_audio_ms: 1,
        played_audio_ms: 2,
        queued_audio_ms: 3,
        pending_marks: 4,
        humanization_json: json(r#"{"enabled": true}"#),
    };
    let (record, about) = call.finish("20.0".to_string(), 0, metrics, "21.0".to_string());
    assert_eq!(record.call_sid, "CA");
    assert_eq!(record.stream_sid, "MZ");
    assert_eq!(record.persona, "Bob");
    assert_eq!(record.scam_type, "refund");
    assert_eq!(record.start_time, "10.0");
    assert_eq!(record.created_at, "10.0");
    assert_eq!(record.end_time, "20.0");
    assert_eq!(record.duration_seconds, 1);
    assert_eq!(record.transcript_text, "user:  This is Amazon");
    assert_eq!(
        record.transcript_json,
        json(r#"[{"role": "user", "text": " This is Amazon", "at_ms": 5, "created_at": "11.0"}]"#)
    );
    assert_eq!(
        record.metrics_json,
        json(
            r#"{"generated_audio_ms": 1, "played_audio_ms": 2, "queued_audio_ms": 3,
                "pending_marks": 4, "humanization": {"enabled": true}}"#
        )
    );
    assert_eq!(record.live_entities_json, about.extraction_json);
    assert_eq!(about.impersonated_organisation, Some("Amazon".to_string()));
    assert_eq!(about.summary, "Observed refund call. user:  This is Amazon");
    assert_eq!(about.confidence_percent, 72);
    assert_eq!(about.created_at, "21.0");
}

#[test]
fn records_are_lines_of_a_file() {
    let file = JsonlCallTrackingRepository::new("calls.jsonl".to_string());
    assert_eq!(file.path, "calls.jsonl");
    let metrics = FinalCallMetrics {
        generated_audio_ms: 1,
        played_audio_ms: 2,
        queued_audio_ms: 3,
        pending_marks: 4,
        humanization_json: json("null"),
    };
    let mut call = call();
    call.record_user_text("hi".to_string(), 5, "11.0".to_string());
    let (record, about) = call.finish("20.0".to_string(), 9, metrics, "21.0".to_string());
    let line = file.save_call(record);
    assert!(!line.contains('\n'));
    assert_eq!(
        json(&line),
        json(
            r#"{"type": "call", "record": {"call_sid": "CA", "stream_sid": "MZ", "persona": "Bob",
                "scam_type": "refund", "start_time": "10.0", "end_time": "20.0",
                "duration_seconds": 9, "transcript_text": "user: hi",
                "transcript_json": [{"role": "user", "text": "hi", "at_ms": 5, "created_at": "11.0"}],
                "live_entities_json": {"phones": [], "urls": [], "emails": [], "organisations": []},
                "metrics_json": {"generated_audio_ms": 1, "played_audio_ms": 2,
                    "queued_audio_ms": 3, "pending_marks": 4, "humanization": null},
                "created_at": "10.0"}}"#
        )
    );
    assert_eq!(
        json(&file.save_intelligence(about, json("0.45"))),
        json(
            r#"{"type": "call_intelligence", "record": {"call_sid": "CA", "scam_type": "refund",
                "impersonated_organisation": null,
                "summary": "Observed refund call. user: hi", "confidence": 0.45,
                "extraction_json": {"phones": [], "urls": [], "emails": [], "organisations": []},
                "created_at": "21.0"}}"#
        )
    );
}

#[test]
fn a_named_organisation_is_written() {
    let about = CallIntelligence {
        call_sid: "CA".to_string(),
        scam_type: "refund".to_string(),
        impersonated_organisation: Some("Apple".to_string()),
        summary: "s".to_string(),
        confidence_percent: 72,
        extraction_json: json("{}"),
        created_at: "1.0".to_string(),
    };
    let value = intelligence_value(about, json("0.72"));
    assert_eq!(value.get("impersonated_organisation"), Some(&json("\"Apple\"")));
}
