//! The settings of the agent.

use crate::environment;
use crate::environment::Environment;
use crate::humanize::HumanizationConfig;
use crate::text;
use vstd::prelude::*;

verus! {

pub const DEFAULT_DEEPGRAM_MODEL: &'static str = "nova-3";

pub const DEFAULT_DEEPGRAM_LANGUAGE: &'static str = "en-US";

pub const DEFAULT_DEEPGRAM_ENDPOINTING_MS: u32 = 180;

pub const DEFAULT_OPENAI_TEXT_MODEL: &'static str = "gpt-5.4-nano";

pub const DEFAULT_CARTESIA_MODEL: &'static str = "sonic-3";

pub const DEFAULT_CARTESIA_LANGUAGE: &'static str = "en";

pub const DEFAULT_MAX_RESPONSE_TOKENS: u32 = 64;

pub const DEFAULT_SOFT_AUDIO_LIMIT_MS: u64 = 2_500;

pub const DEFAULT_HARD_AUDIO_LIMIT_MS: u64 = 0;

pub const DEFAULT_BACKLOG_LOW_WATER_MS: u64 = 1_500;

pub const DEFAULT_BACKLOG_HIGH_WATER_MS: u64 = 2_500;

pub const DEFAULT_BARGE_IN_SPEECH_MS: u32 = 1_200;

pub const DEFAULT_MIN_ASSISTANT_AUDIO_BEFORE_BARGE_MS: u64 = 5_000;

pub const DEFAULT_OPENAI_VAD_PREFIX_PADDING_MS: u32 = 180;

pub const DEFAULT_OPENAI_VAD_SILENCE_DURATION_MS: u32 = 280;

pub const DEFAULT_SHORT_TURN_GRACE_MS: u64 = 260;

pub const DEFAULT_NORMAL_TURN_GRACE_MS: u64 = 120;

pub const DEFAULT_LONG_TURN_GRACE_MS: u64 = 60;

pub const DEFAULT_MIN_RESPONSE_SPEECH_MS: u64 = 500;

pub const DEFAULT_PERSONA_INSTRUCTIONS: &'static str = r#"
You are a natural, human-like phone persona. You are polite, slightly confused, and conversational.
Your goal is to keep suspicious callers talking while safely extracting information such as:
phone numbers, names, callback numbers, websites, crypto wallet addresses, payment instructions,
company names, and scripts.

Never provide real private information.
Never make real payments.
Ask clarifying questions naturally.
Keep responses short and interruptible.
If interrupted, stop talking and listen.
Prefer very short spoken replies. In normal conversation, speak for under 2 seconds.
Use one concise sentence unless the caller explicitly asks for details.
"#;

pub const DEFAULT_RESPONSE_INSTRUCTIONS: &'static str = "Keep every reply extremely short. Use one sentence whenever possible. Prefer acknowledgements and direct questions over explanations. Never monologue. Avoid compound sentences, lists, and overexplaining. Yield the floor frequently.";

/// Who listens, thinks and speaks in a call.
#[derive(Clone, Copy, Debug, PartialEq, Eq, Structural)]
pub enum OrchestratorStack {
    /// One speech-to-speech model.
    OpenAiRealtime,
    /// A transcriber, a language model and a voice of different providers.
    SplitProviders,
}

/// The stack that a setting in lower case names; anything unknown is the
/// speech-to-speech model.
pub open spec fn stack_of(low: Seq<char>) -> OrchestratorStack {
    if low == "split"@ || low == "split_providers"@ || low == "deepgram_openai_cartesia"@ {
        OrchestratorStack::SplitProviders
    } else {
        OrchestratorStack::OpenAiRealtime
    }
}

impl OrchestratorStack {
    /// The stack that a setting in lower case names.
    pub fn from_setting(low: &str) -> (res: Self)
        ensures
            res == stack_of(low@),
    {
        if text::same_text(low, "split") || text::same_text(low, "split_providers")
            || text::same_text(low, "deepgram_openai_cartesia") {
            OrchestratorStack::SplitProviders
        } else {
            OrchestratorStack::OpenAiRealtime
        }
    }

    /// The stack that the environment names, whatever the case.
    pub fn from_env(env: &Environment) -> (res: Self)
        ensures
            ({
                let value = environment::value_or(
                    env@,
                    "ORCHESTRATOR_STACK"@,
                    "openai_realtime"@,
                );
                &&& res == stack_of(environment::unicode_lower(value))
                &&& vstd::utf8::is_ascii_chars(value) ==> res == stack_of(text::lower(value))
            }),
    {
        let value = env.var_or("ORCHESTRATOR_STACK", "openai_realtime");
        let low = environment::to_lowercase(value.as_str());
        OrchestratorStack::from_setting(low.as_str())
    }
}

/// When the caller has the floor.
pub struct TurnTakingConfig {
    /// Speech that interrupts the agent.
    pub barge_in_speech_ms: u32,
    /// Audio of the agent before which it cannot be interrupted.
    pub min_assistant_audio_before_barge_ms: u64,
    /// How sure the model is that it hears speech, as it is written.
    pub vad_threshold: Option<String>,
    pub vad_prefix_padding_ms: u32,
    pub vad_silence_duration_ms: u32,
    /// Waits before an answer, by the length of what the caller said.
    pub short_turn_grace_ms: u64,
    pub normal_turn_grace_ms: u64,
    pub long_turn_grace_ms: u64,
    /// Speech too short to be answered.
    pub min_response_speech_ms: u64,
}

/// The number up to the greatest of 32 bits that a variable spells.
pub open spec fn u32_or(vars: Seq<(Seq<char>, Seq<char>)>, name: Seq<char>, default: u32) -> nat {
    environment::number_or(vars, name, u32::MAX as nat, default as nat)
}

/// The number up to the greatest of 64 bits that a variable spells.
pub open spec fn u64_or(vars: Seq<(Seq<char>, Seq<char>)>, name: Seq<char>, default: u64) -> nat {
    environment::number_or(vars, name, u64::MAX as nat, default as nat)
}

impl TurnTakingConfig {
    /// These are the settings that the variables give.
    pub open spec fn set_by(self, vars: Seq<(Seq<char>, Seq<char>)>) -> bool {
        &&& self.barge_in_speech_ms == u32_or(
            vars,
            "BARGE_IN_SPEECH_MS"@,
            DEFAULT_BARGE_IN_SPEECH_MS,
        )
        &&& self.min_assistant_audio_before_barge_ms == u64_or(
            vars,
            "MIN_ASSISTANT_AUDIO_BEFORE_BARGE_MS"@,
            DEFAULT_MIN_ASSISTANT_AUDIO_BEFORE_BARGE_MS,
        )
        &&& text::text_view(self.vad_threshold) == environment::lookup(vars, "OPENAI_VAD_THRESHOLD"@)
        &&& self.vad_prefix_padding_ms == u32_or(
            vars,
            "OPENAI_VAD_PREFIX_PADDING_MS"@,
            DEFAULT_OPENAI_VAD_PREFIX_PADDING_MS,
        )
        &&& self.vad_silence_duration_ms == u32_or(
            vars,
            "OPENAI_VAD_SILENCE_DURATION_MS"@,
            DEFAULT_OPENAI_VAD_SILENCE_DURATION_MS,
        )
        &&& self.short_turn_grace_ms == u64_or(
            vars,
            "SHORT_TURN_GRACE_MS"@,
            DEFAULT_SHORT_TURN_GRACE_MS,
        )
        &&& self.normal_turn_grace_ms == u64_or(
            vars,
            "NORMAL_TURN_GRACE_MS"@,
            DEFAULT_NORMAL_TURN_GRACE_MS,
        )
        &&& self.long_turn_grace_ms == u64_or(
            vars,
            "LONG_TURN_GRACE_MS"@,
            DEFAULT_LONG_TURN_GRACE_MS,
        )
        &&& self.min_response_speech_ms == u64_or(
            vars,
            "MIN_RESPONSE_SPEECH_MS"@,
            DEFAULT_MIN_RESPONSE_SPEECH_MS,
        )
    }

    /// The settings that the environment gives.
    pub fn from_env(env: &Environment) -> (res: Self)
        ensures
            res.set_by(env@),
    {
        TurnTakingConfig {
            barge_in_speech_ms: environment::env_u32(
                env,
                "BARGE_IN_SPEECH_MS",
                DEFAULT_BARGE_IN_SPEECH_MS,
            ),
            min_assistant_audio_before_barge_ms: environment::env_u64(
                env,
                "MIN_ASSISTANT_AUDIO_BEFORE_BARGE_MS",
                DEFAULT_MIN_ASSISTANT_AUDIO_BEFORE_BARGE_MS,
            ),
            vad_threshold: env.var("OPENAI_VAD_THRESHOLD"),
            vad_prefix_padding_ms: environment::env_u32(
                env,
                "OPENAI_VAD_PREFIX_PADDING_MS",
                DEFAULT_OPENAI_VAD_PREFIX_PADDING_MS,
            ),
            vad_silence_duration_ms: environment::env_u32(
                env,
                "OPENAI_VAD_SILENCE_DURATION_MS",
                DEFAULT_OPENAI_VAD_SILENCE_DURATION_MS,
            ),
            short_turn_grace_ms: environment::env_u64(
                env,
                "SHORT_TURN_GRACE_MS",
                DEFAULT_SHORT_TURN_GRACE_MS,
            ),
            normal_turn_grace_ms: environment::env_u64(
                env,
                "NORMAL_TURN_GRACE_MS",
                DEFAULT_NORMAL_TURN_GRACE_MS,
            ),
            long_turn_grace_ms: environment::env_u64(
                env,
                "LONG_TURN_GRACE_MS",
                DEFAULT_LONG_TURN_GRACE_MS,
            ),
            min_response_speech_ms: environment::env_u64(
                env,
                "MIN_RESPONSE_SPEECH_MS",
                DEFAULT_MIN_RESPONSE_SPEECH_MS,
            ),
        }
    }
}

/// A setting without which the agent cannot start.
#[derive(Clone, Copy, Debug, PartialEq, Eq, Structural)]
pub enum MissingSetting {
    OpenAiApiKey,
    DeepgramApiKey,
    CartesiaApiKey,
    CartesiaVoiceId,
}

/// What is said of a setting that is missing.
pub open spec fn missing_message(setting: MissingSetting) -> Seq<char> {
    match setting {
        MissingSetting::OpenAiApiKey => "OPENAI_API_KEY missing"@,
        MissingSetting::DeepgramApiKey => "DEEPGRAM_API_KEY missing for ORCHESTRATOR_STACK=split"@,
        MissingSetting::CartesiaApiKey => "CARTESIA_API_KEY missing for ORCHESTRATOR_STACK=split"@,
        MissingSetting::CartesiaVoiceId =>
            "CARTESIA_VOICE_ID missing for ORCHESTRATOR_STACK=split"@,
    }
}

impl MissingSetting {
    /// What is said of the setting.
    pub fn message(self) -> (res: &'static str)
        ensures
            res@ == missing_message(self),
    {
        match self {
            MissingSetting::OpenAiApiKey => "OPENAI_API_KEY missing",
            MissingSetting::DeepgramApiKey =>
                "DEEPGRAM_API_KEY missing for ORCHESTRATOR_STACK=split",
            MissingSetting::CartesiaApiKey =>
                "CARTESIA_API_KEY missing for ORCHESTRATOR_STACK=split",
            MissingSetting::CartesiaVoiceId =>
                "CARTESIA_VOICE_ID missing for ORCHESTRATOR_STACK=split",
        }
    }
}

/// The settings of the agent.
pub struct AppState {
    pub call_tracking_path: String,
    pub orchestrator_stack: OrchestratorStack,
    pub openai_api_key: String,
    pub openai_model: String,
    pub openai_text_model: String,
    pub openai_voice: String,
    pub deepgram_api_key: Option<String>,
    pub deepgram_model: String,
    pub deepgram_language: String,
    pub deepgram_endpointing_ms: u32,
    pub cartesia_api_key: Option<String>,
    pub cartesia_model: String,
    pub cartesia_voice_id: Option<String>,
    pub cartesia_language: String,
    pub public_ws_url: String,
    pub persona_name: String,
    pub scam_type: String,
    pub persona_instructions: String,
    pub response_instructions: String,
    pub max_response_tokens: u32,
    pub soft_audio_limit_ms: u64,
    pub hard_audio_limit_ms: u64,
    pub backlog_low_water_ms: u64,
    pub backlog_high_water_ms: u64,
    pub turn: TurnTakingConfig,
    pub humanization: HumanizationConfig,
}

impl AppState {
    /// These are the names and keys that the variables give.
    pub open spec fn texts_set_by(self, vars: Seq<(Seq<char>, Seq<char>)>) -> bool {
        &&& self.call_tracking_path@ == environment::value_or(
            vars,
            "CALL_TRACKING_JSONL_PATH"@,
            "data/call_tracking.jsonl"@,
        )
        &&& Some(self.openai_api_key@) == environment::lookup(vars, "OPENAI_API_KEY"@)
        &&& self.openai_model@ == environment::value_or(
            vars,
            "OPENAI_REALTIME_MODEL"@,
            "gpt-realtime"@,
        )
        &&& self.openai_text_model@ == environment::value_or(
            vars,
            "OPENAI_TEXT_MODEL"@,
            DEFAULT_OPENAI_TEXT_MODEL@,
        )
        &&& self.openai_voice@ == environment::value_or(vars, "OPENAI_VOICE"@, "alloy"@)
        &&& text::text_view(self.deepgram_api_key) == environment::nonblank(vars, "DEEPGRAM_API_KEY"@)
        &&& self.deepgram_model@ == environment::value_or(
            vars,
            "DEEPGRAM_MODEL"@,
            DEFAULT_DEEPGRAM_MODEL@,
        )
        &&& self.deepgram_language@ == environment::value_or(
            vars,
            "DEEPGRAM_LANGUAGE"@,
            DEFAULT_DEEPGRAM_LANGUAGE@,
        )
        &&& text::text_view(self.cartesia_api_key) == environment::nonblank(vars, "CARTESIA_API_KEY"@)
        &&& self.cartesia_model@ == environment::value_or(
            vars,
            "CARTESIA_MODEL"@,
            DEFAULT_CARTESIA_MODEL@,
        )
        &&& text::text_view(self.cartesia_voice_id) == environment::nonblank(vars, "CARTESIA_VOICE_ID"@)
        &&& self.cartesia_language@ == environment::value_or(
            vars,
            "CARTESIA_LANGUAGE"@,
            DEFAULT_CARTESIA_LANGUAGE@,
        )
        &&& self.public_ws_url@ == environment::value_or(
            vars,
            "PUBLIC_WS_URL"@,
            "wss://example.ngrok-free.app/twilio/media"@,
        )
        &&& self.persona_name@ == environment::value_or(vars, "PERSONA_NAME"@, "default"@)
        &&& self.scam_type@ == environment::value_or(vars, "SCAM_TYPE"@, "unknown"@)
        &&& self.persona_instructions@ == environment::value_or(
            vars,
            "PERSONA_INSTRUCTIONS"@,
            DEFAULT_PERSONA_INSTRUCTIONS@,
        )
        &&& self.response_instructions@ == environment::value_or(
            vars,
            "RESPONSE_INSTRUCTIONS"@,
            DEFAULT_RESPONSE_INSTRUCTIONS@,
        )
    }

    /// These are the limits that the variables give.
    pub open spec fn limits_set_by(self, vars: Seq<(Seq<char>, Seq<char>)>) -> bool {
        &&& self.deepgram_endpointing_ms == u32_or(
            vars,
            "DEEPGRAM_ENDPOINTING_MS"@,
            DEFAULT_DEEPGRAM_ENDPOINTING_MS,
        )
        &&& self.max_response_tokens == u32_or(
            vars,
            "MAX_RESPONSE_TOKENS"@,
            DEFAULT_MAX_RESPONSE_TOKENS,
        )
        &&& self.soft_audio_limit_ms == u64_or(
            vars,
            "SOFT_AUDIO_LIMIT_MS"@,
            DEFAULT_SOFT_AUDIO_LIMIT_MS,
        )
        &&& self.hard_audio_limit_ms == u64_or(
            vars,
            "HARD_AUDIO_LIMIT_MS"@,
            DEFAULT_HARD_AUDIO_LIMIT_MS,
        )
        &&& self.backlog_low_water_ms == u64_or(
            vars,
            "BACKLOG_LOW_WATER_MS"@,
            DEFAULT_BACKLOG_LOW_WATER_MS,
        )
        &&& self.backlog_high_water_ms == u64_or(
            vars,
            "BACKLOG_HIGH_WATER_MS"@,
            DEFAULT_BACKLOG_HIGH_WATER_MS,
        )
    }

    /// These are the settings that the variables give.
    pub open spec fn set_by(self, vars: Seq<(Seq<char>, Seq<char>)>) -> bool {
        &&& self.texts_set_by(vars)
        &&& self.limits_set_by(vars)
        &&& self.orchestrator_stack == stack_of(
            environment::unicode_lower(
                environment::value_or(vars, "ORCHESTRATOR_STACK"@, "openai_realtime"@),
            ),
        )
        &&& self.turn.set_by(vars)
        &&& self.humanization.set_by(vars)
    }

    /// The settings that the environment gives. Only the key of the language
    /// model has no default.
    pub fn from_env(env: &Environment) -> (res: Result<Self, MissingSetting>)
        ensures
            res is Ok <==> environment::lookup(env@, "OPENAI_API_KEY"@) is Some,
            res matches Ok(state) ==> state.set_by(env@),
            res matches Err(missing) ==> missing == MissingSetting::OpenAiApiKey,
    {
        let openai_api_key = match env.var("OPENAI_API_KEY") {
            Some(key) => key,
            None => return Err(MissingSetting::OpenAiApiKey),
        };
        let state = AppState {
            call_tracking_path: env.var_or("CALL_TRACKING_JSONL_PATH", "data/call_tracking.jsonl"),
            orchestrator_stack: OrchestratorStack::from_env(env),
            openai_api_key,
            openai_model: env.var_or("OPENAI_REALTIME_MODEL", "gpt-realtime"),
            openai_text_model: env.var_or("OPENAI_TEXT_MODEL", DEFAULT_OPENAI_TEXT_MODEL),
            openai_voice: env.var_or("OPENAI_VOICE", "alloy"),
            deepgram_api_key: environment::env_nonempty(env, "DEEPGRAM_API_KEY"),
            deepgram_model: env.var_or("DEEPGRAM_MODEL", DEFAULT_DEEPGRAM_MODEL),
            deepgram_language: env.var_or("DEEPGRAM_LANGUAGE", DEFAULT_DEEPGRAM_LANGUAGE),
            deepgram_endpointing_ms: environment::env_u32(
                env,
                "DEEPGRAM_ENDPOINTING_MS",
                DEFAULT_DEEPGRAM_ENDPOINTING_MS,
            ),
            cartesia_api_key: environment::env_nonempty(env, "CARTESIA_API_KEY"),
            cartesia_model: env.var_or("CARTESIA_MODEL", DEFAULT_CARTESIA_MODEL),
            cartesia_voice_id: environment::env_nonempty(env, "CARTESIA_VOICE_ID"),
            cartesia_language: env.var_or("CARTESIA_LANGUAGE", DEFAULT_CARTESIA_LANGUAGE),
            public_ws_url: env.var_or("PUBLIC_WS_URL", "wss://example.ngrok-free.app/twilio/media"),
            persona_name: env.var_or("PERSONA_NAME", "default"),
            scam_type: env.var_or("SCAM_TYPE", "unknown"),
            persona_instructions: env.var_or("PERSONA_INSTRUCTIONS", DEFAULT_PERSONA_INSTRUCTIONS),
            response_instructions: env.var_or(
                "RESPONSE_INSTRUCTIONS",
                DEFAULT_RESPONSE_INSTRUCTIONS,
            ),
            max_response_tokens: environment::env_u32(
                env,
                "MAX_RESPONSE_TOKENS",
                DEFAULT_MAX_RESPONSE_TOKENS,
            ),
            soft_audio_limit_ms: environment::env_u64(
                env,
                "SOFT_AUDIO_LIMIT_MS",
                DEFAULT_SOFT_AUDIO_LIMIT_MS,
            ),
            hard_audio_limit_ms: environment::env_u64(
                env,
                "HARD_AUDIO_LIMIT_MS",
                DEFAULT_HARD_AUDIO_LIMIT_MS,
            ),
            backlog_low_water_ms: environment::env_u64(
                env,
                "BACKLOG_LOW_WATER_MS",
                DEFAULT_BACKLOG_LOW_WATER_MS,
            ),
            backlog_high_water_ms: environment::env_u64(
                env,
                "BACKLOG_HIGH_WATER_MS",
                DEFAULT_BACKLOG_HIGH_WATER_MS,
            ),
            turn: TurnTakingConfig::from_env(env),
            humanization: HumanizationConfig::from_env(env),
        };
        Ok(state)
    }
}

/// The address to listen on.
pub fn bind_address(env: &Environment) -> (res: String)
    ensures
        res@ == environment::value_or(env@, "BIND_ADDR"@, "0.0.0.0:3000"@),
{
    env.var_or("BIND_ADDR", "0.0.0.0:3000")
}

/// The document that tells the telephone service where to stream a call.
pub open spec fn twiml_document(url: Seq<char>) -> Seq<char> {
    TWIML_HEAD@ + url + TWIML_TAIL@
}

pub const TWIML_HEAD: &'static str = r#"<?xml version="1.0" encoding="UTF-8"?>
            <Response>
            <Connect>
                <Stream url=""#;

pub const TWIML_TAIL: &'static str = r#"" />
            </Connect>
            </Response>"#;

/// The document that tells the telephone service where to stream a call.
pub fn twiml(public_ws_url: &str) -> (res: String)
    ensures
        res@ == twiml_document(public_ws_url@),
{
    let mut res = TWIML_HEAD.to_owned();
    res.append(public_ws_url);
    res.append(TWIML_TAIL);
    res
}

// ---------------------------------------------------------------------------
// Laws
// ---------------------------------------------------------------------------

/// How turns are taken is set by what is given, where it is a number that fits,
/// and is otherwise as it is by default.
pub proof fn law_turn_taking_is_set(
    turn: TurnTakingConfig,
    vars: Seq<(Seq<char>, Seq<char>)>,
    n: u64,
)
    requires
        turn.set_by(vars),
    ensures
        environment::lookup(vars, "BARGE_IN_SPEECH_MS"@) is None ==> turn.barge_in_speech_ms == 1200,
        environment::lookup(vars, "BARGE_IN_SPEECH_MS"@) == Some(text::decimal(n as nat)) ==> turn.barge_in_speech_ms
            == if n <= u32::MAX {
            n
        } else {
            1200
        },
        environment::lookup(vars, "MIN_ASSISTANT_AUDIO_BEFORE_BARGE_MS"@) is None ==> turn.min_assistant_audio_before_barge_ms == 5000,
        environment::lookup(vars, "MIN_ASSISTANT_AUDIO_BEFORE_BARGE_MS"@) == Some(text::decimal(n as nat)) ==> turn.min_assistant_audio_before_barge_ms == n,
        environment::lookup(vars, "OPENAI_VAD_PREFIX_PADDING_MS"@) is None ==> turn.vad_prefix_padding_ms == 180,
        environment::lookup(vars, "OPENAI_VAD_PREFIX_PADDING_MS"@) == Some(text::decimal(n as nat)) ==> turn.vad_prefix_padding_ms
            == if n <= u32::MAX {
            n
        } else {
            180
        },
        environment::lookup(vars, "OPENAI_VAD_SILENCE_DURATION_MS"@) is None ==> turn.vad_silence_duration_ms == 280,
        environment::lookup(vars, "OPENAI_VAD_SILENCE_DURATION_MS"@) == Some(text::decimal(n as nat)) ==> turn.vad_silence_duration_ms
            == if n <= u32::MAX {
            n
        } else {
            280
        },
        environment::lookup(vars, "SHORT_TURN_GRACE_MS"@) is None ==> turn.short_turn_grace_ms == 260,
        environment::lookup(vars, "SHORT_TURN_GRACE_MS"@) == Some(text::decimal(n as nat)) ==> turn.short_turn_grace_ms == n,
        environment::lookup(vars, "NORMAL_TURN_GRACE_MS"@) is None ==> turn.normal_turn_grace_ms == 120,
        environment::lookup(vars, "NORMAL_TURN_GRACE_MS"@) == Some(text::decimal(n as nat)) ==> turn.normal_turn_grace_ms == n,
        environment::lookup(vars, "LONG_TURN_GRACE_MS"@) is None ==> turn.long_turn_grace_ms == 60,
        environment::lookup(vars, "LONG_TURN_GRACE_MS"@) == Some(text::decimal(n as nat)) ==> turn.long_turn_grace_ms == n,
        environment::lookup(vars, "MIN_RESPONSE_SPEECH_MS"@) is None ==> turn.min_response_speech_ms == 500,
        environment::lookup(vars, "MIN_RESPONSE_SPEECH_MS"@) == Some(text::decimal(n as nat)) ==> turn.min_response_speech_ms == n,
        environment::lookup(vars, "OPENAI_VAD_THRESHOLD"@) == text::text_view(turn.vad_threshold),
{
    environment::law_default_numbers(vars, "BARGE_IN_SPEECH_MS"@, n as nat, u32::MAX as nat, 1200);
    environment::law_default_numbers(vars, "MIN_ASSISTANT_AUDIO_BEFORE_BARGE_MS"@, n as nat, u64::MAX as nat, 5000);
    environment::law_default_numbers(vars, "OPENAI_VAD_PREFIX_PADDING_MS"@, n as nat, u32::MAX as nat, 180);
    environment::law_default_numbers(vars, "OPENAI_VAD_SILENCE_DURATION_MS"@, n as nat, u32::MAX as nat, 280);
    environment::law_default_numbers(vars, "SHORT_TURN_GRACE_MS"@, n as nat, u64::MAX as nat, 260);
    environment::law_default_numbers(vars, "NORMAL_TURN_GRACE_MS"@, n as nat, u64::MAX as nat, 120);
    environment::law_default_numbers(vars, "LONG_TURN_GRACE_MS"@, n as nat, u64::MAX as nat, 60);
    environment::law_default_numbers(vars, "MIN_RESPONSE_SPEECH_MS"@, n as nat, u64::MAX as nat, 500);
}

/// The limits of a call are set by what is given, and are otherwise as they are by
/// default.
pub proof fn law_limits_are_set(state: AppState, vars: Seq<(Seq<char>, Seq<char>)>, n: u64)
    requires
        state.set_by(vars),
    ensures
        environment::lookup(vars, "DEEPGRAM_ENDPOINTING_MS"@) is None ==> state.deepgram_endpointing_ms == 180,
        environment::lookup(vars, "DEEPGRAM_ENDPOINTING_MS"@) == Some(text::decimal(n as nat)) ==> state.deepgram_endpointing_ms
            == if n <= u32::MAX {
            n
        } else {
            180
        },
        environment::lookup(vars, "MAX_RESPONSE_TOKENS"@) is None ==> state.max_response_tokens == 64,
        environment::lookup(vars, "MAX_RESPONSE_TOKENS"@) == Some(text::decimal(n as nat)) ==> state.max_response_tokens
            == if n <= u32::MAX {
            n
        } else {
            64
        },
        environment::lookup(vars, "SOFT_AUDIO_LIMIT_MS"@) is None ==> state.soft_audio_limit_ms == 2500,
        environment::lookup(vars, "SOFT_AUDIO_LIMIT_MS"@) == Some(text::decimal(n as nat)) ==> state.soft_audio_limit_ms == n,
        environment::lookup(vars, "HARD_AUDIO_LIMIT_MS"@) is None ==> state.hard_audio_limit_ms == 0,
        environment::lookup(vars, "HARD_AUDIO_LIMIT_MS"@) == Some(text::decimal(n as nat)) ==> state.hard_audio_limit_ms == n,
        environment::lookup(vars, "BACKLOG_LOW_WATER_MS"@) is None ==> state.backlog_low_water_ms == 1500,
        environment::lookup(vars, "BACKLOG_LOW_WATER_MS"@) == Some(text::decimal(n as nat)) ==> state.backlog_low_water_ms == n,
        environment::lookup(vars, "BACKLOG_HIGH_WATER_MS"@) is None ==> state.backlog_high_water_ms == 2500,
        environment::lookup(vars, "BACKLOG_HIGH_WATER_MS"@) == Some(text::decimal(n as nat)) ==> state.backlog_high_water_ms == n,
{
    environment::law_default_numbers(vars, "DEEPGRAM_ENDPOINTING_MS"@, n as nat, u32::MAX as nat, 180);
    environment::law_default_numbers(vars, "MAX_RESPONSE_TOKENS"@, n as nat, u32::MAX as nat, 64);
    environment::law_default_numbers(vars, "SOFT_AUDIO_LIMIT_MS"@, n as nat, u64::MAX as nat, 2500);
    environment::law_default_numbers(vars, "HARD_AUDIO_LIMIT_MS"@, n as nat, u64::MAX as nat, 0);
    environment::law_default_numbers(vars, "BACKLOG_LOW_WATER_MS"@, n as nat, u64::MAX as nat, 1500);
    environment::law_default_numbers(vars, "BACKLOG_HIGH_WATER_MS"@, n as nat, u64::MAX as nat, 2500);
}

/// What the providers and the persona are called and told is set by what is given,
/// as it stands, and is otherwise as it is by default. A key that is blank counts
/// as not given.
pub proof fn law_texts_are_set(
    state: AppState,
    vars: Seq<(Seq<char>, Seq<char>)>,
    value: Seq<char>,
)
    requires
        state.set_by(vars),
    ensures
        environment::lookup(vars, "CALL_TRACKING_JSONL_PATH"@) is None ==> state.call_tracking_path@ == "data/call_tracking.jsonl"@,
        environment::lookup(vars, "CALL_TRACKING_JSONL_PATH"@) == Some(value) ==> state.call_tracking_path@ == value,
        environment::lookup(vars, "OPENAI_REALTIME_MODEL"@) is None ==> state.openai_model@ == "gpt-realtime"@,
        environment::lookup(vars, "OPENAI_REALTIME_MODEL"@) == Some(value) ==> state.openai_model@ == value,
        environment::lookup(vars, "OPENAI_TEXT_MODEL"@) is None ==> state.openai_text_model@ == "gpt-5.4-nano"@,
        environment::lookup(vars, "OPENAI_TEXT_MODEL"@) == Some(value) ==> state.openai_text_model@ == value,
        environment::lookup(vars, "OPENAI_VOICE"@) is None ==> state.openai_voice@ == "alloy"@,
        environment::lookup(vars, "OPENAI_VOICE"@) == Some(value) ==> state.openai_voice@ == value,
        environment::lookup(vars, "DEEPGRAM_MODEL"@) is None ==> state.deepgram_model@ == "nova-3"@,
        environment::lookup(vars, "DEEPGRAM_MODEL"@) == Some(value) ==> state.deepgram_model@ == value,
        environment::lookup(vars, "DEEPGRAM_LANGUAGE"@) is None ==> state.deepgram_language@ == "en-US"@,
        environment::lookup(vars, "DEEPGRAM_LANGUAGE"@) == Some(value) ==> state.deepgram_language@ == value,
        environment::lookup(vars, "CARTESIA_MODEL"@) is None ==> state.cartesia_model@ == "sonic-3"@,
        environment::lookup(vars, "CARTESIA_MODEL"@) == Some(value) ==> state.cartesia_model@ == value,
        environment::lookup(vars, "CARTESIA_LANGUAGE"@) is None ==> state.cartesia_language@ == "en"@,
        environment::lookup(vars, "CARTESIA_LANGUAGE"@) == Some(value) ==> state.cartesia_language@ == value,
        environment::lookup(vars, "PUBLIC_WS_URL"@) is None ==> state.public_ws_url@ == "wss://example.ngrok-free.app/twilio/media"@,
        environment::lookup(vars, "PUBLIC_WS_URL"@) == Some(value) ==> state.public_ws_url@ == value,
        environment::lookup(vars, "PERSONA_NAME"@) is None ==> state.persona_name@ == "default"@,
        environment::lookup(vars, "PERSONA_NAME"@) == Some(value) ==> state.persona_name@ == value,
        environment::lookup(vars, "SCAM_TYPE"@) is None ==> state.scam_type@ == "unknown"@,
        environment::lookup(vars, "SCAM_TYPE"@) == Some(value) ==> state.scam_type@ == value,
        environment::lookup(vars, "PERSONA_INSTRUCTIONS"@) is None ==> state.persona_instructions@
            == DEFAULT_PERSONA_INSTRUCTIONS@,
        environment::lookup(vars, "PERSONA_INSTRUCTIONS"@) == Some(value) ==> state.persona_instructions@ == value,
        environment::lookup(vars, "RESPONSE_INSTRUCTIONS"@) is None ==> state.response_instructions@
            == DEFAULT_RESPONSE_INSTRUCTIONS@,
        environment::lookup(vars, "RESPONSE_INSTRUCTIONS"@) == Some(value) ==> state.response_instructions@ == value,
        environment::lookup(vars, "OPENAI_API_KEY"@) == Some(state.openai_api_key@),
        environment::lookup(vars, "ORCHESTRATOR_STACK"@) == Some(value) ==> state.orchestrator_stack
            == stack_of(environment::unicode_lower(value)),
        environment::lookup(vars, "DEEPGRAM_API_KEY"@) is None ==> state.deepgram_api_key is None,
        environment::lookup(vars, "DEEPGRAM_API_KEY"@) == Some(value) && text::trimmed(value).len() > 0
            ==> text::text_view(state.deepgram_api_key) == Some(value),
        environment::lookup(vars, "DEEPGRAM_API_KEY"@) == Some(value) && text::trimmed(value).len() == 0
            ==> state.deepgram_api_key is None,
        environment::lookup(vars, "CARTESIA_API_KEY"@) is None ==> state.cartesia_api_key is None,
        environment::lookup(vars, "CARTESIA_API_KEY"@) == Some(value) && text::trimmed(value).len() > 0
            ==> text::text_view(state.cartesia_api_key) == Some(value),
        environment::lookup(vars, "CARTESIA_API_KEY"@) == Some(value) && text::trimmed(value).len() == 0
            ==> state.cartesia_api_key is None,
        environment::lookup(vars, "CARTESIA_VOICE_ID"@) is None ==> state.cartesia_voice_id is None,
        environment::lookup(vars, "CARTESIA_VOICE_ID"@) == Some(value) && text::trimmed(value).len() > 0
            ==> text::text_view(state.cartesia_voice_id) == Some(value),
        environment::lookup(vars, "CARTESIA_VOICE_ID"@) == Some(value) && text::trimmed(value).len() == 0
            ==> state.cartesia_voice_id is None,
{
}

/// Split providers are chosen by one of three names, and the speech-to-speech model
/// by any other.
pub proof fn law_stack_is_named(low: Seq<char>)
    ensures
        stack_of(low) == OrchestratorStack::SplitProviders <==> low == "split"@ || low
            == "split_providers"@ || low == "deepgram_openai_cartesia"@,
        stack_of(low) == OrchestratorStack::OpenAiRealtime <==> low != "split"@ && low
            != "split_providers"@ && low != "deepgram_openai_cartesia"@,
{
}

/// The document that connects a call holds the address of the stream as it is, at
/// one place, and is otherwise always the same.
pub proof fn law_document_holds_the_address(url: Seq<char>, other: Seq<char>)
    ensures
        ({
            let document = twiml_document(url);
            let n = document.len() - url.len();
            let at = TWIML_HEAD@.len() as int;
            &&& 0 <= at <= n
            &&& document.subrange(at, at + url.len()) == url
            &&& document.take(at) == twiml_document(other).take(at)
            &&& document.skip(at + url.len()) == twiml_document(other).skip(at + other.len())
        }),
{
    let document = twiml_document(url);
    let at = TWIML_HEAD@.len() as int;
    assert(document.subrange(at, at + url.len()) =~= url);
    assert(document.take(at) =~= TWIML_HEAD@);
    assert(twiml_document(other).take(at) =~= TWIML_HEAD@);
    assert(document.skip(at + url.len()) =~= TWIML_TAIL@);
    assert(twiml_document(other).skip(at + other.len()) =~= TWIML_TAIL@);
}

/// The agent listens where it is told to, and otherwise at every address of the
/// machine, on port 3000.
pub proof fn law_bind_address(env: &Environment, res: String)
    requires
        call_ensures(bind_address, (env,), res),
    ensures
        environment::lookup(env@, "BIND_ADDR"@) is None ==> res@ == "0.0.0.0:3000"@,
        environment::lookup(env@, "BIND_ADDR"@) matches Some(value) ==> res@ == value,
{
}

/// The settings can be had exactly where the key of the language model is given,
/// whatever else is.
pub proof fn law_settings_need_one_key(env: &Environment, res: Result<AppState, MissingSetting>)
    requires
        call_ensures(AppState::from_env, (env,), res),
    ensures
        res is Ok <==> environment::lookup(env@, "OPENAI_API_KEY"@) is Some,
        res matches Err(missing) ==> missing == MissingSetting::OpenAiApiKey,
        res matches Ok(state) ==> environment::lookup(env@, "OPENAI_API_KEY"@) == Some(
            state.openai_api_key@,
        ),
{
}

/// A setting that is missing is told by the name of its variable, and with the
/// stack that needs it.
pub proof fn law_missing_settings_are_told()
    ensures
        missing_message(MissingSetting::OpenAiApiKey) == "OPENAI_API_KEY missing"@,
        missing_message(MissingSetting::DeepgramApiKey)
            == "DEEPGRAM_API_KEY missing for ORCHESTRATOR_STACK=split"@,
        missing_message(MissingSetting::CartesiaApiKey)
            == "CARTESIA_API_KEY missing for ORCHESTRATOR_STACK=split"@,
        missing_message(MissingSetting::CartesiaVoiceId)
            == "CARTESIA_VOICE_ID missing for ORCHESTRATOR_STACK=split"@,
{
}

} // verus!
