use voice_ai_orchestrator::cartesia::cartesia_url;
use voice_ai_orchestrator::config::{
    bind_address, twiml, AppState, MissingSetting, OrchestratorStack, DEFAULT_PERSONA_INSTRUCTIONS,
};
use voice_ai_orchestrator::deepgram::deepgram_url;
use voice_ai_orchestrator::environment::Environment;
use voice_ai_orchestrator::openai_realtime::realtime_url;
use voice_ai_orchestrator::split_providers::split_credentials;

fn environment(vars: &[(&str, &str)]) -> Environment {
    Environment {
        vars: vars.iter().map(|(k, v)| (k.to_string(), v.to_string())).collect(),
    }
}

fn state(vars: &[(&str, &str)]) -> AppState {
    let mut all = vec![("OPENAI_API_KEY", "key")];
    all.extend_from_slice(vars);
    match AppState::from_env(&environment(&all)) {
        Ok(state) => state,
        Err(_) => panic!("no state"),
    }
}

#[test]
fn defaults_stand_in_for_what_is_not_set() {
    let state = state(&[]);
    assert_eq!(state.call_tracking_path, "data/call_tracking.jsonl");
    assert_eq!(state.orchestrator_stack, OrchestratorStack::OpenAiRealtime);
    assert_eq!(state.openai_api_key, "key");
    assert_eq!(state.openai_model, "gpt-realtime");
    assert_eq!(state.openai_text_model, "gpt-5.4-nano");
    assert_eq!(state.openai_voice, "alloy");
    assert_eq!(state.deepgram_api_key, None);
    assert_eq!(state.deepgram_endpointing_ms, 180);
    assert_eq!(state.public_ws_url, "wss://example.ngrok-free.app/twilio/media");
    assert_eq!(state.persona_name, "default");
    assert_eq!(state.scam_type, "unknown");
    assert_eq!(state.persona_instructions, DEFAULT_PERSONA_INSTRUCTIONS);
    assert!(state.persona_instructions.starts_with("\nYou are a natural"));
    assert!(state.response_instructions.ends_with("Yield the floor frequently."));
    assert_eq!(state.max_response_tokens, 64);
    assert_eq!(state.soft_audio_limit_ms, 2_500);
    assert_eq!(state.hard_audio_limit_ms, 0);
    assert_eq!(state.backlog_low_water_ms, 1_500);
    assert_eq!(state.backlog_high_water_ms, 2_500);
    assert_eq!(state.turn.barge_in_speech_ms, 1_200);
    assert_eq!(state.turn.min_assistant_audio_before_barge_ms, 5_000);
    assert_eq!(state.turn.vad_threshold, None);
    assert_eq!(state.turn.short_turn_grace_ms, 260);
    assert_eq!(state.turn.min_response_speech_ms, 500);
    assert!(state.humanization.enabled);
}

#[test]
fn settings_are_taken_over() {
    let state = state(&[
        ("ORCHESTRATOR_STACK", "SPLIT"),
        ("OPENAI_VAD_THRESHOLD", "0.6"),
        ("BARGE_IN_SPEECH_MS", "40"),
        ("HARD_AUDIO_LIMIT_MS", "9000"),
        ("DEEPGRAM_API_KEY", "d"),
        ("CARTESIA_API_KEY", "   "),
    ]);
    assert_eq!(state.orchestrator_stack, OrchestratorStack::SplitProviders);
    assert_eq!(state.turn.vad_threshold, Some("0.6".to_string()));
    assert_eq!(state.turn.barge_in_speech_ms, 40);
    assert_eq!(state.hard_audio_limit_ms, 9000);
    assert_eq!(state.deepgram_api_key, Some("d".to_string()));
    assert_eq!(state.cartesia_api_key, None);
}

#[test]
fn stacks_are_named_in_any_case() {
    for (name, stack) in [
        ("split_providers", OrchestratorStack::SplitProviders),
        ("Deepgram_OpenAI_Cartesia", OrchestratorStack::SplitProviders),
        ("openai_realtime", OrchestratorStack::OpenAiRealtime),
        (" split", OrchestratorStack::OpenAiRealtime),
        ("", OrchestratorStack::OpenAiRealtime),
    ] {
        let env = environment(&[("ORCHESTRATOR_STACK", name)]);
        assert_eq!(OrchestratorStack::from_env(&env), stack);
    }
    assert_eq!(OrchestratorStack::from_setting("split"), OrchestratorStack::SplitProviders);
}

#[test]
fn the_key_of_the_model_is_needed() {
    assert!(matches!(
        AppState::from_env(&environment(&[])),
        Err(MissingSetting::OpenAiApiKey)
    ));
    assert_eq!(MissingSetting::OpenAiApiKey.message(), "OPENAI_API_KEY missing");
}

#[test]
fn split_providers_need_their_keys() {
    let full = [
        ("DEEPGRAM_API_KEY", "d"),
        ("CARTESIA_API_KEY", "c"),
        ("CARTESIA_VOICE_ID", "v"),
    ];
    let keys = split_credentials(&state(&full)).ok().unwrap();
    assert_eq!((keys.deepgram_api_key, keys.cartesia_api_key), ("d".to_string(), "c".to_string()));
    assert!(matches!(split_credentials(&state(&[])), Err(MissingSetting::DeepgramApiKey)));
    assert!(matches!(
        split_credentials(&state(&full[..1])),
        Err(MissingSetting::CartesiaApiKey)
    ));
    assert!(matches!(
        split_credentials(&state(&full[..2])),
        Err(MissingSetting::CartesiaVoiceId)
    ));
    assert_eq!(
        MissingSetting::CartesiaVoiceId.message(),
        "CARTESIA_VOICE_ID missing for ORCHESTRATOR_STACK=split"
    );
}

#[test]
fn addresses_hold_their_settings() {
    assert_eq!(bind_address(&environment(&[])), "0.0.0.0:3000");
    assert_eq!(bind_address(&environment(&[("BIND_ADDR", "[::]:80")])), "[::]:80");
    assert_eq!(realtime_url("m"), "wss://api.openai.com/v1/realtime?model=m");
    assert_eq!(
        deepgram_url(&state(&[("DEEPGRAM_MODEL", "m"), ("DEEPGRAM_ENDPOINTING_MS", "90")])),
        "wss://api.deepgram.com/v1/listen?model=m&language=en-US&encoding=mulaw&sample_rate=8000\
         &channels=1&interim_results=true&endpointing=90&vad_events=true&smart_format=true"
    );
    assert_eq!(
        cartesia_url(),
        "wss://api.cartesia.ai/tts/websocket?cartesia_version=2026-03-01"
    );
}

#[test]
fn the_document_for_the_telephone_names_the_stream() {
    let url = "wss://host/twilio/media";
    let wanted = format!(
        r#"<?xml version="1.0" encoding="UTF-8"?>
            <Response>
            <Connect>
                <Stream url="{}" />
            </Connect>
            </Response>"#,
        url
    );
    assert_eq!(twiml(url), wanted);
}
