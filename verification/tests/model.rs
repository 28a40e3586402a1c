use serde_json::Value;
use voice_ai_orchestrator::config::{AppState, TurnTakingConfig};
use voice_ai_orchestrator::environment::Environment;
use voice_ai_orchestrator::json::json_string;
use voice_ai_orchestrator::openai_realtime::{
    append_audio_ulaw, cancel_response, create_response, decode_realtime_delta, delta_ms,
    encode_realtime_audio, finish_delta, grace_over, hear_model, openai_turn_speech_ms,
    read_realtime_event, response_grace_ms, session_update, settle, transform_realtime_delta,
    DeltaOutcome, RealtimeAction, RealtimeEvent,
};
use voice_ai_orchestrator::signals::RealtimeSignals;

fn json(text: &str) -> Value {
    serde_json::from_str(text).unwrap()
}

fn state() -> AppState {
    let vars = vec![
        ("OPENAI_API_KEY".to_string(), "key".to_string()),
        ("PERSONA_INSTRUCTIONS".to_string(), "Be Bob.".to_string()),
        ("RESPONSE_INSTRUCTIONS".to_string(), "Be brief.".to_string()),
    ];
    match AppState::from_env(&Environment { vars }) {
        Ok(state) => state,
        Err(_) => panic!(),
    }
}

fn turn() -> TurnTakingConfig {
    TurnTakingConfig::from_env(&Environment { vars: vec![] })
}

fn say(s: &mut RealtimeSignals, text: &str) -> RealtimeAction {
    match read_realtime_event(text) {
        Some(event) => hear_model(s, event, &turn()),
        None => panic!("no JSON"),
    }
}

#[test]
fn the_model_is_told_what_it_needs() {
    assert_eq!(
        append_audio_ulaw("AAAA"),
        json(r#"{"type": "input_audio_buffer.append", "audio": "AAAA"}"#)
    );
    assert_eq!(cancel_response(), json(r#"{"type": "response.cancel"}"#));
    assert_eq!(
        create_response(&state(), 1500),
        json(
            r#"{"type": "response.create", "response": {"modalities": ["audio", "text"],
                "instructions": "Be brief. Backlog is 1500ms. Use at most 10 words. One simple sentence only.",
                "max_output_tokens": 40}}"#
        )
    );
    assert_eq!(
        session_update(&state(), json("0.48"), json("0.7")),
        json(
            r#"{"type": "session.update", "session": {"modalities": ["audio", "text"],
                "voice": "alloy", "instructions": "Be Bob.",
                "input_audio_format": "g711_ulaw", "output_audio_format": "g711_ulaw",
                "turn_detection": {"type": "server_vad", "threshold": 0.48,
                    "prefix_padding_ms": 180, "silence_duration_ms": 280,
                    "create_response": false, "interrupt_response": false},
                "temperature": 0.7}}"#
        )
    );
}

#[test]
fn messages_are_written() {
    assert_eq!(json_string(&cancel_response()), r#"{"type":"response.cancel"}"#);
}

#[test]
fn messages_of_the_model_are_read() {
    match read_realtime_event(r#"{"type": "response.created", "response": {"id": "r1"}}"#) {
        Some(RealtimeEvent::ResponseCreated { response_id }) => {
            assert_eq!(response_id, Some("r1".to_string()));
        }
        _ => panic!(),
    }
    match read_realtime_event(
        r#"{"type": "response.audio.delta", "response_id": "r2", "response": {"id": "r1"}}"#,
    ) {
        Some(RealtimeEvent::AudioDelta { delta, response_id }) => {
            assert_eq!(delta, None);
            assert_eq!(response_id, Some("r2".to_string()));
        }
        _ => panic!(),
    }
    match read_realtime_event(r#"{"type": "response.output_text.done", "text": "hi"}"#) {
        Some(RealtimeEvent::AssistantTranscript { text }) => {
            assert_eq!(text, Some("hi".to_string()));
        }
        _ => panic!(),
    }
    match read_realtime_event(
        r#"{"type": "response.audio_transcript.done", "transcript": null, "text": "hi"}"#,
    ) {
        Some(RealtimeEvent::AssistantTranscript { text }) => assert_eq!(text, None),
        _ => panic!(),
    }
    assert!(matches!(
        read_realtime_event(r#"{"type": "input_audio_buffer.speech_started"}"#),
        Some(RealtimeEvent::SpeechStarted { audio_start_ms: 0 })
    ));
    assert!(matches!(
        read_realtime_event(r#"{"type": "input_audio_buffer.speech_stopped", "audio_end_ms": -1}"#),
        Some(RealtimeEvent::SpeechStopped { audio_end_ms: None })
    ));
    assert!(matches!(read_realtime_event(r#"{"type": "error"}"#), Some(RealtimeEvent::Failure)));
    assert!(matches!(
        read_realtime_event(r#"{"type": "response.cancelled"}"#),
        Some(RealtimeEvent::ResponseCancelled)
    ));
    assert!(matches!(
        read_realtime_event(r#"{"type": "response.done"}"#),
        Some(RealtimeEvent::ResponseDone)
    ));
    assert!(matches!(read_realtime_event("{}"), Some(RealtimeEvent::Other)));
    assert!(read_realtime_event("nonsense").is_none());
}

#[test]
fn a_turn_is_measured_by_the_model() {
    assert_eq!(openai_turn_speech_ms(Some(1500), 400), 1100);
    assert_eq!(openai_turn_speech_ms(Some(300), 400), 0);
    assert_eq!(openai_turn_speech_ms(None, 400), 0);
    assert_eq!(response_grace_ms(1500, &turn()), 60);
    assert_eq!(response_grace_ms(1499, &turn()), 120);
    assert_eq!(response_grace_ms(600, &turn()), 120);
    assert_eq!(response_grace_ms(599, &turn()), 260);
}

#[test]
fn a_turn_is_answered_after_a_grace() {
    let mut s = RealtimeSignals::new();
    let started = r#"{"type": "input_audio_buffer.speech_started", "audio_start_ms": 100}"#;
    let stopped = r#"{"type": "input_audio_buffer.speech_stopped", "audio_end_ms": 800}"#;
    assert!(matches!(say(&mut s, started), RealtimeAction::Nothing));
    assert_eq!((s.user_speech_generation, s.openai_speech_started_ms), (1, 100));
    let (stopped_generation, grace_ms) = match say(&mut s, stopped) {
        RealtimeAction::AwaitGrace { stopped_generation, turn_speech_ms, grace_ms } => {
            assert_eq!(turn_speech_ms, 700);
            (stopped_generation, grace_ms)
        }
        _ => panic!(),
    };
    assert_eq!((stopped_generation, grace_ms), (1, 120));
    s.generated_audio_ms = 50;
    s.interrupted = true;
    assert_eq!(grace_over(&mut s, stopped_generation, 77), Some(2));
    assert_eq!(s.response_requested_at, Some((2, 77)));
    assert!(s.response_active && !s.interrupted);
    assert_eq!(s.generated_audio_ms, 0);
    assert_eq!(grace_over(&mut s, stopped_generation, 78), None);
}

#[test]
fn a_caller_who_goes_on_is_not_answered() {
    let mut s = RealtimeSignals::new();
    let started = r#"{"type": "input_audio_buffer.speech_started"}"#;
    say(&mut s, started);
    say(&mut s, started);
    assert_eq!(grace_over(&mut s, 1, 0), None);
    assert_eq!(s.response_generation, 1);
}

#[test]
fn noise_is_not_answered() {
    let mut s = RealtimeSignals::new();
    let stopped = r#"{"type": "input_audio_buffer.speech_stopped", "audio_end_ms": 499}"#;
    assert!(matches!(say(&mut s, stopped), RealtimeAction::Skip));
    let unknown = r#"{"type": "input_audio_buffer.speech_stopped"}"#;
    assert!(matches!(say(&mut s, unknown), RealtimeAction::Skip));
}

#[test]
fn a_reply_that_was_not_heard_is_cancelled_by_speech() {
    let mut s = RealtimeSignals::new();
    let started = r#"{"type": "input_audio_buffer.speech_started"}"#;
    s.response_active = true;
    s.active_response_id = Some("r".to_string());
    s.response_requested_at = Some((1, 0));
    assert!(matches!(say(&mut s, started), RealtimeAction::Cancel));
    assert!(!s.response_active);
    assert_eq!((s.response_generation, s.response_requested_at), (2, None));
    s.response_active = true;
    s.assistant_speaking = true;
    assert!(matches!(say(&mut s, started), RealtimeAction::Nothing));
    assert_eq!(s.response_generation, 2);
}

#[test]
fn only_audio_of_the_reply_under_way_is_played() {
    let mut s = RealtimeSignals::new();
    let created = r#"{"type": "response.created", "response": {"id": "r1"}}"#;
    assert!(matches!(say(&mut s, created), RealtimeAction::NewVoice));
    assert!(s.response_active);
    let own = r#"{"type": "response.audio.delta", "response_id": "r1", "delta": "AAAA"}"#;
    match say(&mut s, own) {
        RealtimeAction::Play { delta, generation } => {
            assert_eq!((delta.as_str(), generation), ("AAAA", 1));
        }
        _ => panic!(),
    }
    let other = r#"{"type": "response.audio.delta", "response_id": "r0", "delta": "AAAA"}"#;
    assert!(matches!(say(&mut s, other), RealtimeAction::Skip));
    s.active_response_id = None;
    assert!(matches!(say(&mut s, other), RealtimeAction::Play { .. }));
    assert_eq!(s.active_response_id, Some("r0".to_string()));
    let unnamed = r#"{"type": "response.audio.delta", "delta": "AAAA"}"#;
    assert!(matches!(say(&mut s, unnamed), RealtimeAction::Play { .. }));
    let empty = r#"{"type": "response.audio.delta", "response_id": "r9"}"#;
    assert!(matches!(say(&mut s, empty), RealtimeAction::Nothing));
}

#[test]
fn audio_is_counted_and_sent() {
    let mut s = RealtimeSignals::new();
    s.response_requested_at = Some((1, 40));
    match finish_delta(&mut s, "MZ", 1, "AAAA", 20, 0) {
        DeltaOutcome::Send { message, asked_at } => {
            assert_eq!(asked_at, Some(40));
            assert_eq!(
                message,
                json(
                    r#"{"event": "media", "streamSid": "MZ", "generation": 1, "audio_ms": 20,
                        "media": {"payload": "AAAA"}}"#
                )
            );
        }
        DeltaOutcome::Cancel => panic!(),
    }
    assert_eq!((s.generated_audio_ms, s.response_requested_at), (20, None));
    s.response_requested_at = Some((9, 40));
    match finish_delta(&mut s, "MZ", 1, "AAAA", 20, 0) {
        DeltaOutcome::Send { asked_at, .. } => assert_eq!(asked_at, None),
        DeltaOutcome::Cancel => panic!(),
    }
    assert_eq!((s.generated_audio_ms, s.response_requested_at), (40, Some((9, 40))));
    s.audio_queued();
    assert!(s.assistant_speaking);
}

#[test]
fn a_reply_beyond_the_hard_limit_is_cancelled() {
    let mut s = RealtimeSignals::new();
    s.response_active = true;
    s.active_response_id = Some("r".to_string());
    s.response_requested_at = Some((1, 40));
    assert!(matches!(
        finish_delta(&mut s, "MZ", 1, "AAAA", 20, 21),
        DeltaOutcome::Send { .. }
    ));
    s.response_requested_at = Some((1, 40));
    assert!(matches!(finish_delta(&mut s, "MZ", 1, "AAAA", 1, 21), DeltaOutcome::Cancel));
    assert!(!s.response_active);
    assert_eq!(s.active_response_id, None);
    assert_eq!((s.generated_audio_ms, s.response_requested_at), (21, Some((1, 40))));
}

#[test]
fn replies_end() {
    let mut s = RealtimeSignals::new();
    s.response_active = true;
    s.assistant_speaking = true;
    s.pending_playback_marks = 1;
    s.active_response_id = Some("r".to_string());
    assert!(matches!(say(&mut s, r#"{"type": "response.done"}"#), RealtimeAction::DropVoice));
    assert!(!s.response_active && s.assistant_speaking);
    assert_eq!(s.active_response_id, None);
    s.pending_playback_marks = 0;
    say(&mut s, r#"{"type": "response.done"}"#);
    assert!(!s.assistant_speaking);
    s.assistant_speaking = true;
    s.pending_playback_marks = 5;
    s.response_active = true;
    let cancelled = r#"{"type": "response.cancelled"}"#;
    assert!(matches!(say(&mut s, cancelled), RealtimeAction::DropVoice));
    assert!(!s.assistant_speaking && !s.response_active);
    assert_eq!(s.pending_playback_marks, 0);
    s.assistant_speaking = true;
    s.response_active = true;
    assert!(matches!(say(&mut s, r#"{"type": "error"}"#), RealtimeAction::DropVoice));
    assert!(s.assistant_speaking && !s.response_active);
}

#[test]
fn what_was_said_is_recorded() {
    let mut s = RealtimeSignals::new();
    let user = r#"{"type": "conversation.item.input_audio_transcription.completed", "transcript": "hello"}"#;
    match say(&mut s, user) {
        RealtimeAction::RecordUser { text } => assert_eq!(text, "hello"),
        _ => panic!(),
    }
    let agent = r#"{"type": "response.audio_transcript.done", "transcript": "hi"}"#;
    match say(&mut s, agent) {
        RealtimeAction::RecordAssistant { text } => assert_eq!(text, "hi"),
        _ => panic!(),
    }
    let none = r#"{"type": "response.audio_transcript.done"}"#;
    assert!(matches!(say(&mut s, none), RealtimeAction::Nothing));
}

#[test]
fn the_agent_falls_silent_after_a_while() {
    let mut s = RealtimeSignals::new();
    s.assistant_speaking = true;
    settle(&mut s, 700_000_000);
    assert!(s.assistant_speaking);
    s.pending_playback_marks = 1;
    settle(&mut s, 700_000_001);
    assert!(s.assistant_speaking);
    s.pending_playback_marks = 0;
    settle(&mut s, 700_000_001);
    assert!(!s.assistant_speaking);
}

#[test]
fn audio_is_decoded_and_encoded() {
    let samples = decode_realtime_delta("/84A").unwrap();
    assert_eq!(samples, vec![0, 988, -32124]);
    assert_eq!(encode_realtime_audio(&samples), Some("/84A".to_string()));
    assert_eq!(encode_realtime_audio(&[]), None);
    assert_eq!(decode_realtime_delta("*"), None);
    let came = "AAAA".to_string();
    assert_eq!(transform_realtime_delta(came.clone(), Some(samples)), "/84A");
    assert_eq!(transform_realtime_delta(came.clone(), Some(vec![])), "AAAA");
    assert_eq!(transform_realtime_delta(came, None), "AAAA");
    assert_eq!(delta_ms("AAAAAAAAAAAAAAAAAAAAAA=="), 2);
    assert_eq!(delta_ms("*"), 20);
}
