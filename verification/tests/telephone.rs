use serde_json::Value;
use voice_ai_orchestrator::audio::linear_i16_to_ulaw;
use voice_ai_orchestrator::config::{OrchestratorStack, TurnTakingConfig};
use voice_ai_orchestrator::environment::Environment;
use voice_ai_orchestrator::signals::RealtimeSignals;
use voice_ai_orchestrator::split_providers::SplitControl;
use voice_ai_orchestrator::twilio::{
    barge_in_realtime, barge_in_split, clear_message, media_message, read_twilio_event,
    weigh_frame, BargeInDetector, CallAction, MissingStreamSid, OutboundKind, TwilioEvent,
    TwilioSender, TwilioSession,
};

fn json(text: &str) -> Value {
    serde_json::from_str(text).unwrap()
}

fn turn(speech_ms: u32, audio_ms: u64) -> TurnTakingConfig {
    let mut turn = TurnTakingConfig::from_env(&Environment { vars: vec![] });
    turn.barge_in_speech_ms = speech_ms;
    turn.min_assistant_audio_before_barge_ms = audio_ms;
    turn
}

#[test]
fn a_call_starts_with_nothing() {
    let s = RealtimeSignals::new();
    assert_eq!(s.response_generation, 1);
    assert!(!s.assistant_speaking && !s.response_active && !s.interrupted);
    assert_eq!(s.active_response_id, None);
}

#[test]
fn messages_of_the_stream_are_read() {
    assert!(matches!(
        read_twilio_event(r#"{"event": "connected"}"#),
        Some(TwilioEvent::Connected)
    ));
    match read_twilio_event(
        r#"{"event": "start", "streamSid": "MZ1", "start": {"streamSid": "MZ2", "callSid": "CA"}}"#,
    ) {
        Some(TwilioEvent::Start { stream_sid, call_sid }) => {
            assert_eq!(stream_sid, Some("MZ1".to_string()));
            assert_eq!(call_sid, "CA");
        }
        _ => panic!(),
    }
    match read_twilio_event(r#"{"event": "start", "streamSid": 5, "start": {"streamSid": "MZ2"}}"#)
    {
        Some(TwilioEvent::Start { stream_sid, call_sid }) => {
            assert_eq!(stream_sid, Some("MZ2".to_string()));
            assert_eq!(call_sid, "unknown");
        }
        _ => panic!(),
    }
    match read_twilio_event(r#"{"event": "media", "media": {"payload": "AAAA"}}"#) {
        Some(TwilioEvent::Media { payload }) => assert_eq!(payload, Some("AAAA".to_string())),
        _ => panic!(),
    }
    match read_twilio_event(r#"{"event": "mark", "mark": {}}"#) {
        Some(TwilioEvent::Mark { name }) => assert_eq!(name, ""),
        _ => panic!(),
    }
    assert!(matches!(read_twilio_event(r#"{"event": "stop"}"#), Some(TwilioEvent::Stop)));
    assert!(matches!(read_twilio_event(r#"{"event": "dtmf"}"#), Some(TwilioEvent::Other)));
    assert!(matches!(read_twilio_event("[]"), Some(TwilioEvent::Other)));
    assert!(read_twilio_event("{").is_none());
}

fn start(sid: Option<&str>) -> TwilioEvent {
    TwilioEvent::Start { stream_sid: sid.map(|s| s.to_string()), call_sid: "CA".to_string() }
}

fn media(payload: &str) -> TwilioEvent {
    TwilioEvent::Media { payload: Some(payload.to_string()) }
}

#[test]
fn audio_before_the_start_is_ignored() {
    let mut session = TwilioSession::new(OrchestratorStack::OpenAiRealtime);
    let mut s = RealtimeSignals::new();
    assert!(matches!(session.hear(media("AAAA"), &mut s), Ok(CallAction::Ignore)));
    assert!(!session.open);
}

#[test]
fn a_stream_needs_a_name() {
    let mut session = TwilioSession::new(OrchestratorStack::OpenAiRealtime);
    let mut s = RealtimeSignals::new();
    assert!(matches!(session.hear(start(None), &mut s), Err(MissingStreamSid)));
    assert!(!session.open);
}

#[test]
fn audio_goes_to_the_providers_of_the_stack() {
    let mut s = RealtimeSignals::new();
    let mut session = TwilioSession::new(OrchestratorStack::OpenAiRealtime);
    match session.hear(start(Some("MZ")), &mut s) {
        Ok(CallAction::Open { stream_sid, call_sid }) => {
            assert_eq!((stream_sid.as_str(), call_sid.as_str()), ("MZ", "CA"));
        }
        _ => panic!(),
    }
    match session.hear(media("AQID"), &mut s) {
        Ok(CallAction::ForwardPayload { payload, audio }) => {
            assert_eq!(payload, "AQID");
            assert_eq!(audio, vec![1, 2, 3]);
        }
        _ => panic!(),
    }
    assert!(matches!(session.hear(media("?"), &mut s), Ok(CallAction::Ignore)));
    assert!(matches!(
        session.hear(TwilioEvent::Media { payload: None }, &mut s),
        Ok(CallAction::Ignore)
    ));
    let mut split = TwilioSession::new(OrchestratorStack::SplitProviders);
    assert!(split.hear(start(Some("MZ")), &mut s).is_ok());
    match split.hear(media("AQID"), &mut s) {
        Ok(CallAction::ForwardAudio { audio }) => assert_eq!(audio, vec![1, 2, 3]),
        _ => panic!(),
    }
    assert!(matches!(split.hear(TwilioEvent::Stop, &mut s), Ok(CallAction::End)));
    assert!(matches!(split.hear(TwilioEvent::Other, &mut s), Ok(CallAction::Ignore)));
}

fn mark(session: &mut TwilioSession, s: &mut RealtimeSignals, name: &str) {
    let event = TwilioEvent::Mark { name: name.to_string() };
    assert!(matches!(session.hear(event, s), Ok(CallAction::Ignore)));
}

#[test]
fn marks_count_what_was_played() {
    let mut session = TwilioSession::new(OrchestratorStack::OpenAiRealtime);
    let mut s = RealtimeSignals::new();
    s.pending_playback_marks = 2;
    s.assistant_speaking = true;
    s.queued_audio_ms = 30;
    mark(&mut session, &mut s, "assistant-1-20-1");
    assert_eq!((s.played_audio_ms, s.queued_audio_ms), (20, 10));
    assert_eq!(s.pending_playback_marks, 1);
    assert!(s.assistant_speaking);
    mark(&mut session, &mut s, "assistant-1-20-2");
    assert_eq!((s.played_audio_ms, s.queued_audio_ms), (40, 0));
    assert!(!s.assistant_speaking);
    s.assistant_speaking = true;
    mark(&mut session, &mut s, "assistant-9-20-3");
    assert_eq!((s.played_audio_ms, s.pending_playback_marks), (40, 0));
    assert!(!s.assistant_speaking);
}

#[test]
fn stale_audio_is_dropped() {
    let sender = TwilioSender::new();
    let mut s = RealtimeSignals::new();
    assert!(sender.prepare(media_message("MZ", 1, 20, "AA=="), &s).is_some());
    s.response_generation = 2;
    assert!(sender.prepare(media_message("MZ", 1, 20, "AA=="), &s).is_none());
    assert!(sender.prepare(clear_message("MZ"), &s).is_some());
}

#[test]
fn audio_goes_out_with_a_mark_behind_it() {
    let mut sender = TwilioSender::new();
    let mut s = RealtimeSignals::new();
    let message = media_message("MZ", 1, 40, "AA==");
    assert_eq!(
        message,
        json(
            r#"{"event": "media", "streamSid": "MZ", "generation": 1, "audio_ms": 40,
                "media": {"payload": "AA=="}}"#
        )
    );
    let outgoing = sender.prepare(message, &s).unwrap();
    assert_eq!(
        json(&outgoing.text),
        json(r#"{"event": "media", "streamSid": "MZ", "media": {"payload": "AA=="}}"#)
    );
    let behind = sender.message_sent(&outgoing.kind, &mut s).unwrap();
    assert_eq!(
        json(&behind),
        json(r#"{"event": "mark", "streamSid": "MZ", "mark": {"name": "assistant-1-40-1"}}"#)
    );
    assert!(s.assistant_speaking);
    assert_eq!((s.queued_audio_ms, s.pending_playback_marks, sender.mark_seq), (40, 1, 2));
    let mut session = TwilioSession::new(OrchestratorStack::OpenAiRealtime);
    mark(&mut session, &mut s, "assistant-1-40-1");
    assert_eq!((s.queued_audio_ms, s.played_audio_ms, s.pending_playback_marks), (0, 40, 0));
}

#[test]
fn messages_without_details_have_defaults() {
    let mut sender = TwilioSender::new();
    let mut s = RealtimeSignals::new();
    assert!(sender.prepare(json(r#"{"event": "media"}"#), &s).is_none());
    s.response_generation = 0;
    let outgoing = sender.prepare(json(r#"{"event": "media"}"#), &s).unwrap();
    assert!(matches!(
        outgoing.kind,
        OutboundKind::Media { generation: 0, audio_ms: 20, stream_sid: None }
    ));
    assert!(sender.message_sent(&outgoing.kind, &mut s).is_none());
    assert_eq!((s.queued_audio_ms, s.pending_playback_marks), (20, 0));
    let other = sender.prepare(json("[1]"), &s).unwrap();
    assert_eq!(other.text, "[1]");
    assert!(sender.message_sent(&other.kind, &mut s).is_none());
    assert_eq!(sender.mark_seq, 1);
}

#[test]
fn a_clear_forgets_the_counts() {
    let mut sender = TwilioSender::new();
    let mut s = RealtimeSignals::new();
    s.pending_playback_marks = 3;
    s.queued_audio_ms = 60;
    s.played_audio_ms = 20;
    let outgoing = sender.prepare(clear_message("MZ"), &s).unwrap();
    assert_eq!(json(&outgoing.text), json(r#"{"event": "clear", "streamSid": "MZ"}"#));
    assert!(sender.message_sent(&outgoing.kind, &mut s).is_none());
    assert_eq!((s.pending_playback_marks, s.queued_audio_ms, s.played_audio_ms), (0, 0, 0));
}

#[test]
fn long_speech_over_the_agent_interrupts_once() {
    let turn = turn(60, 100);
    let mut s = RealtimeSignals::new();
    s.assistant_speaking = true;
    s.generated_audio_ms = 100;
    let mut ms = 0;
    assert_eq!(weigh_frame(&mut ms, true, &mut s, &turn), None);
    assert_eq!(weigh_frame(&mut ms, true, &mut s, &turn), None);
    assert_eq!(weigh_frame(&mut ms, true, &mut s, &turn), Some(60));
    assert_eq!(ms, 0);
    assert!(s.interrupted);
    for _ in 0..5 {
        assert_eq!(weigh_frame(&mut ms, true, &mut s, &turn), None);
    }
    assert_eq!(ms, 100);
    assert_eq!(weigh_frame(&mut ms, false, &mut s, &turn), None);
    assert!(!s.interrupted);
    assert_eq!(ms, 0);
}

#[test]
fn an_interruption_takes_an_unbroken_run() {
    for limit in [1, 20, 21, 60, 100] {
        let turn = turn(limit, 100);
        let needed = (limit as usize + 19) / 20;
        let mut s = RealtimeSignals::new();
        s.assistant_speaking = true;
        s.generated_audio_ms = 100;
        let mut ms = 0;
        let mut run = 0;
        let mut raised_in_run = 0;
        for frame in 0..200usize {
            let speech = (frame * 7 + frame / 5) % 13 != 0;
            let open = frame % 29 != 0;
            s.generated_audio_ms = if open { 100 } else { 99 };
            let counts = speech && open;
            run = if counts { run + 1 } else { 0 };
            if !counts {
                raised_in_run = 0;
            }
            let raised = weigh_frame(&mut ms, speech, &mut s, &turn).is_some();
            assert_eq!(raised, run == needed);
            if raised {
                raised_in_run += 1;
            }
            assert!(raised_in_run <= 1);
            assert!(counts || !s.interrupted);
        }
    }
}

#[test]
fn a_silent_or_young_agent_cannot_be_interrupted() {
    let turn = turn(20, 100);
    let mut s = RealtimeSignals::new();
    let mut ms = 0;
    s.generated_audio_ms = 100;
    assert_eq!(weigh_frame(&mut ms, true, &mut s, &turn), None);
    s.pending_playback_marks = 1;
    assert_eq!(weigh_frame(&mut ms, true, &mut s, &turn), Some(20));
    s.interrupted = false;
    s.generated_audio_ms = 99;
    assert_eq!(weigh_frame(&mut ms, true, &mut s, &turn), None);
}

#[test]
fn the_detector_weighs_what_it_hears() {
    let turn = turn(20, 0);
    let mut s = RealtimeSignals::new();
    s.assistant_speaking = true;
    let mut detector = BargeInDetector::new();
    for _ in 0..10 {
        assert_eq!(detector.hear(&[0xff; 160], &mut s, &turn), None);
    }
    let mut interruptions = 0;
    for frame in 0..60 {
        let bytes: Vec<u8> = (frame * 160..frame * 160 + 160)
            .map(|i: usize| {
                let saw = ((i * 37) % 1600) as i32 * 12 - 9600;
                let swell = ((i / 40) % 50) as i32;
                linear_i16_to_ulaw((saw * swell / 50) as i16)
            })
            .collect();
        if detector.hear(&bytes, &mut s, &turn).is_some() {
            interruptions += 1;
            s.interrupted = false;
        }
    }
    assert!(interruptions > 0);
}

#[test]
fn an_interruption_cuts_the_model_off() {
    let mut s = RealtimeSignals::new();
    s.assistant_speaking = true;
    s.response_active = true;
    s.pending_playback_marks = 4;
    s.generated_audio_ms = 900;
    s.queued_audio_ms = 300;
    s.active_response_id = Some("r".to_string());
    s.response_requested_at = Some((1, 5));
    let (clear, cancel) = barge_in_realtime(&mut s, "MZ");
    assert_eq!(clear, json(r#"{"event": "clear", "streamSid": "MZ"}"#));
    assert!(cancel);
    assert_eq!(s.response_generation, 2);
    assert!(!s.assistant_speaking && s.response_active);
    assert_eq!((s.generated_audio_ms, s.queued_audio_ms, s.pending_playback_marks), (0, 0, 0));
    assert_eq!((s.active_response_id.clone(), s.response_requested_at), (None, None));
    let sender = TwilioSender::new();
    assert!(sender.prepare(media_message("MZ", 1, 20, "AA=="), &s).is_none());
}

#[test]
fn an_interruption_cuts_split_providers_off() {
    let mut s = RealtimeSignals::new();
    s.assistant_speaking = true;
    s.response_active = true;
    s.response_requested_at = Some((1, 5));
    s.played_audio_ms = 7;
    let (clear, stop) = barge_in_split(&mut s, "MZ");
    assert!(matches!(stop, SplitControl::Cancel { context_id: None }));
    assert_eq!(clear, json(r#"{"event": "clear", "streamSid": "MZ"}"#));
    assert_eq!(s.response_generation, 2);
    assert!(!s.assistant_speaking && !s.response_active);
    assert_eq!(s.response_requested_at, Some((1, 5)));
    assert_eq!(s.played_audio_ms, 0);
}
