use serde_json::Value;
use voice_ai_orchestrator::cartesia::{
    context_id, queue_twilio_ulaw_frame, read_cartesia_event, sanitize_context_id,
    split_generation_from_context, CartesiaEvent, CartesiaVoice, DoneAction,
};
use voice_ai_orchestrator::config::AppState;
use voice_ai_orchestrator::deepgram::{
    contains_predictive_intent, predictive_candidate, read_deepgram_event, DeepgramEvent,
    DeepgramTurns, Transcribed, UserUtterance,
};
use voice_ai_orchestrator::environment::Environment;
use voice_ai_orchestrator::humanize::ToneProfile;
use voice_ai_orchestrator::signals::RealtimeSignals;
use voice_ai_orchestrator::text_stream::{completed_short_voice_turn, Progress, TextStream};
use voice_ai_orchestrator::twilio::barge_in_split;
use voice_ai_orchestrator::text_worker::{
    keep_recent_history, text_request, trim_voice_response, TextWorker,
};

fn json(text: &str) -> Value {
    serde_json::from_str(text).unwrap()
}

fn state(voice: bool) -> AppState {
    let mut vars = vec![
        ("OPENAI_API_KEY".to_string(), "key".to_string()),
        ("PERSONA_INSTRUCTIONS".to_string(), "Be Bob.".to_string()),
        ("RESPONSE_INSTRUCTIONS".to_string(), "Be brief.".to_string()),
    ];
    if voice {
        vars.push(("CARTESIA_VOICE_ID".to_string(), "v1".to_string()));
    }
    match AppState::from_env(&Environment { vars }) {
        Ok(state) => state,
        Err(_) => panic!(),
    }
}

fn result(text: &str, is_final: bool, speech_final: bool) -> DeepgramEvent {
    DeepgramEvent::Transcript { text: text.to_string(), is_final, speech_final }
}

#[test]
fn messages_of_the_transcriber_are_read() {
    assert!(matches!(
        read_deepgram_event(r#"{"type": "SpeechStarted"}"#),
        Some(DeepgramEvent::SpeechStarted)
    ));
    match read_deepgram_event(
        r#"{"type": "Results", "is_final": true, "speech_final": false,
            "channel": {"alternatives": [{"transcript": "  hello there "}, {"transcript": "x"}]}}"#,
    ) {
        Some(DeepgramEvent::Transcript { text, is_final, speech_final }) => {
            assert_eq!(text, "hello there");
            assert!(is_final && !speech_final);
        }
        _ => panic!(),
    }
    match read_deepgram_event(r#"{"channel": {"alternatives": []}, "is_final": "yes"}"#) {
        Some(DeepgramEvent::Transcript { text, is_final, speech_final }) => {
            assert_eq!(text, "");
            assert!(!is_final && !speech_final);
        }
        _ => panic!(),
    }
    assert!(read_deepgram_event("").is_none());
}

#[test]
fn four_words_are_worth_a_prediction() {
    assert!(!predictive_candidate("one two three?"));
    assert!(predictive_candidate("one two three four"));
    assert!(!predictive_candidate(""));
}

#[test]
fn intents_are_found_in_any_case() {
    assert!(contains_predictive_intent("I am CALLING FROM the bank"));
    assert!(contains_predictive_intent("Your transaction"));
    assert!(contains_predictive_intent("\u{c9}t\u{e9} FRAUD"));
    assert!(!contains_predictive_intent("hello"));
}

#[test]
fn a_turn_is_put_together() {
    let mut turns = DeepgramTurns::new();
    assert!(turns.hear(result("hello", true, false)).utterance.is_none());
    assert!(turns.hear(result("", true, false)).utterance.is_none());
    assert!(turns.hear(result("not yet", false, false)).utterance.is_none());
    let utterance = turns.hear(result("there", true, true)).utterance.unwrap();
    assert_eq!(utterance.text, "hello there");
    assert_eq!(utterance.user_generation, 1);
    assert!(!utterance.predictive);
    assert!(turns.hear(result("", false, true)).utterance.is_none());
}

#[test]
fn a_new_turn_forgets_the_old_one() {
    let mut turns = DeepgramTurns::new();
    turns.hear(result("hello", true, false));
    turns.hear(DeepgramEvent::SpeechStarted);
    let utterance = turns.hear(result("again", true, true)).utterance.unwrap();
    assert_eq!(utterance.text, "again");
    assert_eq!(utterance.user_generation, 2);
}

#[test]
fn a_prediction_stands_until_there_is_news() {
    let mut turns = DeepgramTurns::new();
    let Transcribed { prediction, utterance } = turns.hear(result("a b c d", false, false));
    assert!(utterance.is_none());
    let first = prediction.unwrap();
    let second = turns.hear(result("a b c d e", false, false)).prediction.unwrap();
    assert!(turns.prediction_due(first).is_none());
    let utterance = turns.prediction_due(second).unwrap();
    assert_eq!(utterance.text, "a b c d e");
    assert!(utterance.predictive);
    let third = turns.hear(result("a b c d e f", false, false)).prediction.unwrap();
    assert!(turns.prediction_due(third).is_none());
    let fourth = turns.hear(result("a b c d e f", false, false)).prediction.unwrap();
    turns.hear(DeepgramEvent::SpeechStarted);
    assert!(turns.prediction_due(fourth).is_none());
    let fifth = turns.hear(result("w x y z", false, false)).prediction.unwrap();
    assert_eq!(turns.prediction_due(fifth).unwrap().user_generation, 2);
    assert!(turns.hear(result("too few words", false, false)).prediction.is_none());
    assert!(turns.hear(result("a b c d", true, false)).prediction.is_none());
}

#[test]
fn enough_words_end_a_turn_early() {
    assert!(!completed_short_voice_turn("one two three four five."));
    assert!(completed_short_voice_turn("one two three four five six. "));
    assert!(completed_short_voice_turn("one two three four five six?"));
    assert!(!completed_short_voice_turn("one two three four five six,"));
    assert!(completed_short_voice_turn("a b c d e f g h i j k l m n"));
}

fn delta(text: &str) -> String {
    format!("data: {{\"type\": \"response.output_text.delta\", \"delta\": \"{}\"}}\n", text)
}

#[test]
fn a_reply_streams_in() {
    let mut stream = TextStream::new();
    assert!(matches!(stream.push_text("event: x\n\n"), Progress::Open));
    assert!(matches!(stream.push_text(&delta("Hello ")), Progress::Open));
    assert!(matches!(stream.push_text("data: [DONE]\ndata:\ndata: {\n"), Progress::Open));
    assert!(matches!(stream.push_text("data: {\"type\": \"response.created\"}\n"), Progress::Open));
    assert!(matches!(stream.push_text(&delta("there")), Progress::Open));
    assert_eq!(stream.output, "Hello there");
    assert!(matches!(
        stream.push_text("data:{\"type\":\"response.completed\"}\ndata: {"),
        Progress::Done
    ));
    assert_eq!(stream.output, "Hello there");
    assert_eq!(stream.buffer, "data: {");
}

#[test]
fn a_reply_ends_when_enough_was_said() {
    let mut stream = TextStream::new();
    let text = delta("One two three four five six.") + &delta(" More.");
    assert!(matches!(stream.push_text(&text), Progress::Done));
    assert_eq!(stream.output, "One two three four five six.");
}

#[test]
fn a_failed_reply_tells_why() {
    for kind in ["error", "response.failed"] {
        let mut stream = TextStream::new();
        let text = format!("data: {{\"type\":\"{}\",\"code\":7}}\n", kind);
        match stream.push_text(&text) {
            Progress::Failed { event } => {
                assert_eq!(event, format!("{{\"code\":7,\"type\":\"{}\"}}", kind));
            }
            _ => panic!(),
        }
    }
}

#[test]
fn cuts_in_the_stream_do_not_matter() {
    let text = delta("Hello ") + &delta("there ") + &delta("friend");
    for cut in 0..text.len() {
        let mut stream = TextStream::new();
        assert!(matches!(stream.push_bytes(text[..cut].as_bytes()), Progress::Open));
        assert!(matches!(stream.push_bytes(text[cut..].as_bytes()), Progress::Open));
        assert_eq!(stream.output, "Hello there friend");
        assert_eq!(stream.buffer, "");
    }
}

#[test]
fn bytes_that_are_no_text_are_replaced() {
    let mut stream = TextStream::new();
    assert!(matches!(stream.push_bytes(&[b'a', 0xff, 0xc3, 0xa9]), Progress::Open));
    assert_eq!(stream.buffer, "a\u{fffd}\u{e9}");
}

#[test]
fn replies_are_cut_for_the_voice() {
    assert_eq!(trim_voice_response("  hello \n there "), "hello there");
    assert_eq!(trim_voice_response(" "), "");
    assert_eq!(trim_voice_response("a b c d e f g h i j"), "a b c d e f g h i j");
    assert_eq!(trim_voice_response("a b c d e f g h i j k"), "a b c d e f g h i j.");
    assert_eq!(trim_voice_response("a b c d e f g h i j,;: k"), "a b c d e f g h i j.");
    assert_eq!(trim_voice_response("a b c d e f g h i j? k"), "a b c d e f g h i j?");
    assert_eq!(trim_voice_response("a b c d e f g h i , k"), "a b c d e f g h i .");
    for text in ["a b c d e f g h i , k", "a b c d e f g h i j, k", "  a  b? ", ", , , , , , , , , , ,"] {
        let cut = trim_voice_response(text);
        assert_eq!(trim_voice_response(&cut), cut);
    }
}

#[test]
fn the_last_messages_are_kept() {
    let mut history: Vec<(String, String)> =
        (0..12).map(|i| ("user".to_string(), i.to_string())).collect();
    keep_recent_history(&mut history, 10);
    assert_eq!(history.len(), 10);
    assert_eq!(history[0].1, "2");
    keep_recent_history(&mut history, 10);
    assert_eq!(history.len(), 10);
    keep_recent_history(&mut history, 0);
    assert_eq!(history.len(), 0);
}

#[test]
fn the_language_model_is_told_the_conversation() {
    let history = vec![("user".to_string(), "hello".to_string())];
    let mut state = state(false);
    assert_eq!(
        text_request(&state, &history),
        json(
            r#"{"model": "gpt-5.4-nano",
                "instructions": "Be brief. Backlog is 0ms. Use at most 6 words. Prefer a direct question. Stop immediately after the question.\nBe Bob.",
                "input": [{"role": "user", "content": "hello"}],
                "max_output_tokens": 24, "stream": true}"#
        )
    );
    state.soft_audio_limit_ms = 2_000;
    let request = text_request(&state, &[]);
    assert_eq!(request.get("max_output_tokens"), Some(&json("40")));
    assert_eq!(request.get("input"), Some(&json("[]")));
}

fn said(user_generation: u64, text: &str) -> UserUtterance {
    UserUtterance { user_generation, text: text.to_string(), predictive: false }
}

#[test]
fn the_latest_turn_is_answered_once() {
    let mut worker = TextWorker::new();
    let mut s = RealtimeSignals::new();
    s.generated_audio_ms = 9;
    s.pending_playback_marks = 2;
    let pending = vec![said(1, "old"), said(2, "new")];
    assert_eq!(worker.begin_turn(pending, &mut s), Some(2));
    assert_eq!((s.response_generation, s.generated_audio_ms, s.pending_playback_marks), (2, 0, 0));
    assert!(s.response_active);
    assert_eq!(worker.history, vec![("user".to_string(), "new".to_string())]);
    assert_eq!(worker.begin_turn(vec![said(2, "new again")], &mut s), None);
    assert_eq!(worker.begin_turn(vec![said(1, "older")], &mut s), None);
    assert_eq!(s.response_generation, 2);
    assert_eq!(worker.begin_turn(vec![said(3, "next")], &mut s), Some(3));
}

#[test]
fn the_turns_asked_for_rise() {
    let mut worker = TextWorker::new();
    let mut s = RealtimeSignals::new();
    let mut asked: Vec<u64> = Vec::new();
    assert_eq!(worker.begin_turn(vec![], &mut s), None);
    for latest in [2, 1, 2, 5, 4, 5, 3, 6, 6, 9] {
        if worker.begin_turn(vec![said(10, "older"), said(latest, "x")], &mut s).is_some() {
            asked.push(latest);
        }
        worker.end_turn(Some("okay".to_string()), 0, ToneProfile::Support, &mut s, 0);
    }
    assert_eq!(asked, vec![2, 5, 6, 9]);
}

#[test]
fn the_turns_answered_in_advance_rise() {
    let mut turns = DeepgramTurns::new();
    let mut waiting = Vec::new();
    let mut predicted: Vec<u64> = Vec::new();
    for step in 0..60 {
        if step % 7 == 6 {
            turns.hear(DeepgramEvent::SpeechStarted);
        } else if let Some(prediction) = turns.hear(result("a b c d", false, false)).prediction {
            waiting.push(prediction);
        }
        if step % 3 == 2 && !waiting.is_empty() {
            let index = if step % 2 == 0 { 0 } else { waiting.len() - 1 };
            if let Some(utterance) = turns.prediction_due(waiting.remove(index)) {
                predicted.push(utterance.user_generation);
            }
        }
    }
    assert!(predicted.len() > 2);
    assert!(predicted.windows(2).all(|pair| pair[0] < pair[1]));
}

#[test]
fn a_reply_is_recorded_and_spoken() {
    let mut worker = TextWorker::new();
    let mut s = RealtimeSignals::new();
    worker.begin_turn(vec![said(1, "hello")], &mut s);
    let reply = Some("Can you  repeat that?".to_string());
    let end = worker.end_turn(reply, 2, ToneProfile::Support, &mut s, 50);
    assert_eq!(s.response_requested_at, Some((2, 50)));
    let spoken = end.speak.unwrap();
    assert_eq!(end.said, Some(spoken.clone()));
    assert!(spoken.ends_with("Can you repeat that?"));
    assert_eq!(worker.history[1], ("assistant".to_string(), spoken));
}

#[test]
fn a_reply_that_comes_too_late_is_not_spoken() {
    let mut worker = TextWorker::new();
    let mut s = RealtimeSignals::new();
    worker.begin_turn(vec![said(1, "hello")], &mut s);
    s.response_generation = 5;
    let end = worker.end_turn(Some("okay".to_string()), 2, ToneProfile::Support, &mut s, 50);
    assert_eq!((end.said, end.speak), (Some("okay".to_string()), None));
    assert_eq!(s.response_requested_at, None);
    assert_eq!(worker.history.len(), 2);
}

#[test]
fn no_reply_ends_the_turn() {
    let mut worker = TextWorker::new();
    let mut s = RealtimeSignals::new();
    for reply in [None, Some("  ".to_string())] {
        s.response_active = true;
        let end = worker.end_turn(reply, 1, ToneProfile::Support, &mut s, 50);
        assert_eq!((end.said, end.speak), (None, None));
        assert!(!s.response_active);
    }
    assert_eq!(worker.history.len(), 0);
}

#[test]
fn contexts_tell_their_reply() {
    assert_eq!(sanitize_context_id("MZ-1_a b/\u{e9}!"), "MZ-1_ab");
    assert_eq!(context_id("MZ 1", 7), "twilio-MZ1-gen-7");
    assert_eq!(split_generation_from_context("twilio-MZ1-gen-7"), Some(7));
    assert_eq!(split_generation_from_context("a-gen-1-gen-22"), Some(22));
    assert_eq!(split_generation_from_context("a-gen-x"), None);
    assert_eq!(split_generation_from_context("a-gen-"), None);
    assert_eq!(split_generation_from_context("none"), None);
    assert_eq!(split_generation_from_context("-gen-3"), Some(3));
    for sid in ["MZ", "x-gen-9", "-gen-", ""] {
        let context = context_id(sid, u64::MAX);
        assert_eq!(split_generation_from_context(&context), Some(u64::MAX));
    }
}

#[test]
fn messages_of_the_voice_are_read() {
    match read_cartesia_event(r#"{"type": "chunk", "context_id": "c", "data": "AAA="}"#) {
        Some(CartesiaEvent::Chunk { context_id, data }) => {
            assert_eq!(context_id, Some("c".to_string()));
            assert_eq!(data, Some("AAA=".to_string()));
        }
        _ => panic!(),
    }
    assert!(matches!(
        read_cartesia_event(r#"{"type": "done"}"#),
        Some(CartesiaEvent::Done { context_id: None })
    ));
    assert!(matches!(
        read_cartesia_event(r#"{"type": "error", "context_id": 4}"#),
        Some(CartesiaEvent::Failure { context_id: None })
    ));
    assert!(matches!(
        read_cartesia_event(r#"{"type": "timestamps"}"#),
        Some(CartesiaEvent::Other)
    ));
    assert!(read_cartesia_event("?").is_none());
}

fn some(text: &str) -> Option<String> {
    Some(text.to_string())
}

#[test]
fn a_reply_is_spoken_in_its_context() {
    let mut voice = CartesiaVoice::new();
    assert!(voice.speak(&state(false), "MZ", 3, "hello").is_none());
    assert_eq!(voice.active_context, None);
    let speaking = voice.speak(&state(true), "MZ", 3, "hello").unwrap();
    assert_eq!(speaking.speech.text, "hello");
    assert_eq!(voice.active_context, some("twilio-MZ-gen-3"));
    assert_eq!(
        speaking.request,
        json(
            r#"{"model_id": "sonic-3", "transcript": "hello",
                "voice": {"mode": "id", "id": "v1"}, "language": "en",
                "context_id": "twilio-MZ-gen-3",
                "output_format": {"container": "raw", "encoding": "pcm_s16le",
                    "sample_rate": 8000},
                "add_timestamps": false, "continue": false}"#
        )
    );
}

#[test]
fn a_reply_is_stopped() {
    let mut voice = CartesiaVoice::new();
    assert!(voice.cancel(None).is_none());
    assert!(voice.cancel(some("")).is_none());
    voice.active_context = some("c");
    assert_eq!(
        voice.cancel(None),
        Some(json(r#"{"context_id": "c", "cancel": true}"#))
    );
    assert_eq!(voice.active_context, None);
    assert_eq!(
        voice.cancel(some("d")),
        Some(json(r#"{"context_id": "d", "cancel": true}"#))
    );
}

#[test]
fn chunks_of_other_replies_are_dropped() {
    let mut voice = CartesiaVoice::new();
    assert!(voice.open_chunk(&some("c"), &some("AQAA")).is_none());
    voice.active_context = some("c");
    assert_eq!(voice.open_chunk(&some("c"), &some("AQACAA==")), Some(vec![1, 2]));
    assert!(voice.open_chunk(&some("d"), &some("AQACAA==")).is_none());
    assert!(voice.open_chunk(&None, &some("AQACAA==")).is_none());
    assert!(voice.open_chunk(&some("c"), &None).is_none());
    assert!(voice.open_chunk(&some("c"), &some("*")).is_none());
}

#[test]
fn audio_goes_out_in_whole_frames() {
    let mut voice = CartesiaVoice::new();
    let s = RealtimeSignals::new();
    let framed = voice.take_audio("x-gen-1", &[0; 100], &s);
    assert_eq!((framed.generation, framed.frames.len()), (1, 0));
    let framed = voice.take_audio("x-gen-1", &[1000; 300], &s);
    assert_eq!(framed.frames.len(), 2);
    assert_eq!(framed.frames[0].len(), 160);
    assert_eq!((framed.frames[0][99], framed.frames[0][100]), (255, 206));
    assert_eq!(voice.ulaw_buffer, vec![206; 80]);
    let stale = voice.take_audio("x-gen-9", &[0; 160], &s);
    assert_eq!((stale.generation, stale.frames.len()), (9, 0));
    assert_eq!(voice.ulaw_buffer.len(), 240);
    let unnamed = voice.take_audio("x", &[], &s);
    assert_eq!((unnamed.generation, unnamed.frames.len()), (1, 1));
}

#[test]
fn audio_of_an_interrupted_reply_goes_nowhere() {
    let mut voice = CartesiaVoice::new();
    let mut s = RealtimeSignals::new();
    let context = context_id("MZ", s.response_generation);
    assert_eq!(voice.take_audio(&context, &[0; 160], &s).frames.len(), 1);
    barge_in_split(&mut s, "MZ");
    assert_eq!(voice.take_audio(&context, &[0; 160], &s).frames.len(), 0);
}

#[test]
fn frames_are_counted_and_sent() {
    let mut s = RealtimeSignals::new();
    s.response_requested_at = Some((1, 30));
    let queued = queue_twilio_ulaw_frame(&mut s, "MZ", 1, &[1, 2, 3]);
    assert_eq!((queued.audio_ms, queued.asked_at), (1, Some(30)));
    assert_eq!(
        queued.message,
        json(
            r#"{"event": "media", "streamSid": "MZ", "generation": 1, "audio_ms": 1,
                "media": {"payload": "AQID"}}"#
        )
    );
    let queued = queue_twilio_ulaw_frame(&mut s, "MZ", 1, &[0; 160]);
    assert_eq!((queued.audio_ms, queued.asked_at), (20, None));
    assert_eq!(s.generated_audio_ms, 21);
}

#[test]
fn a_reply_comes_to_its_end() {
    let mut voice = CartesiaVoice::new();
    let s = RealtimeSignals::new();
    voice.active_context = some("x-gen-1");
    voice.ulaw_buffer = vec![7; 10];
    assert!(matches!(voice.done(some("y"), &s), DoneAction::Ignore));
    assert_eq!(voice.ulaw_buffer.len(), 10);
    assert!(matches!(
        voice.done(some("x-gen-1"), &s),
        DoneAction::Finish { generation: 1 }
    ));
    assert_eq!(voice.active_context, None);
    assert_eq!(voice.last_frame(&[0, 0]), Some([vec![7; 10], vec![255, 255]].concat()));
    assert_eq!(voice.last_frame(&[]), None);
}

#[test]
fn a_stale_end_drops_what_is_left() {
    let mut voice = CartesiaVoice::new();
    let mut s = RealtimeSignals::new();
    voice.ulaw_buffer = vec![7; 10];
    assert!(matches!(voice.done(some("y"), &s), DoneAction::DropVoice));
    assert_eq!(voice.ulaw_buffer.len(), 0);
    voice.ulaw_buffer = vec![7; 10];
    assert!(matches!(voice.done(None, &s), DoneAction::DropVoice));
    assert_eq!(voice.ulaw_buffer.len(), 0);
    voice.ulaw_buffer = vec![7; 10];
    voice.active_context = some("x-gen-1");
    s.response_generation = 2;
    assert!(matches!(voice.done(None, &s), DoneAction::DropVoice));
    assert_eq!((voice.ulaw_buffer.len(), voice.active_context), (0, None));
}

#[test]
fn a_failure_of_another_context_is_ignored() {
    let mut voice = CartesiaVoice::new();
    let mut s = RealtimeSignals::new();
    s.response_active = true;
    voice.active_context = some("c");
    assert!(!voice.failed(&some("d"), &mut s));
    assert!(s.response_active);
    assert!(voice.failed(&some("c"), &mut s));
    assert!(!s.response_active);
    s.response_active = true;
    assert!(voice.failed(&None, &mut s));
    assert!(!s.response_active);
}
