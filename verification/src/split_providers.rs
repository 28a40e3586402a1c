//! A transcriber, a language model and a voice of different providers: what
//! they need to start, and what the voice is told.

use crate::config::{AppState, MissingSetting};
use crate::text;
use vstd::prelude::*;

verus! {

/// A command to the voice.
pub enum SplitControl {
    Speak { generation: u64, text: String },
    /// Stop the reply of a context, or the one under way.
    Cancel { context_id: Option<String> },
}

/// The keys of the transcriber and the voice.
pub struct SplitCredentials {
    pub deepgram_api_key: String,
    pub cartesia_api_key: String,
}

/// The first setting that is missing.
pub open spec fn missing_setting(state: AppState) -> Option<MissingSetting> {
    if state.deepgram_api_key is None {
        Some(MissingSetting::DeepgramApiKey)
    } else if state.cartesia_api_key is None {
        Some(MissingSetting::CartesiaApiKey)
    } else if state.cartesia_voice_id is None {
        Some(MissingSetting::CartesiaVoiceId)
    } else {
        None
    }
}

/// The keys of the transcriber and the voice, if nothing is missing.
pub fn split_credentials(state: &AppState) -> (res: Result<SplitCredentials, MissingSetting>)
    ensures
        res is Ok <==> missing_setting(*state) is None,
        res matches Err(setting) ==> missing_setting(*state) == Some(setting),
        res matches Ok(keys) ==> {
            &&& text::text_view(state.deepgram_api_key) == Some(keys.deepgram_api_key@)
            &&& text::text_view(state.cartesia_api_key) == Some(keys.cartesia_api_key@)
        },
{
    let deepgram_api_key = match &state.deepgram_api_key {
        Some(key) => key.clone(),
        None => {
            return Err(MissingSetting::DeepgramApiKey);
        },
    };
    let cartesia_api_key = match &state.cartesia_api_key {
        Some(key) => key.clone(),
        None => {
            return Err(MissingSetting::CartesiaApiKey);
        },
    };
    if state.cartesia_voice_id.is_none() {
        return Err(MissingSetting::CartesiaVoiceId);
    }
    Ok(SplitCredentials { deepgram_api_key, cartesia_api_key })
}

/// A call can be made where both keys and the voice are set, whatever else is.
/// Otherwise what is missing is named: the key of the transcriber before that of
/// the voice, and that before the voice itself.
pub proof fn law_missing_settings_are_named(state: AppState)
    ensures
        ({
            let named = missing_setting(state);
            &&& named is None <==> state.deepgram_api_key is Some && state.cartesia_api_key is Some
                && state.cartesia_voice_id is Some
            &&& state.deepgram_api_key is None <==> named == Some(MissingSetting::DeepgramApiKey)
            &&& named == Some(MissingSetting::CartesiaApiKey) <==> state.deepgram_api_key is Some
                && state.cartesia_api_key is None
            &&& named == Some(MissingSetting::CartesiaVoiceId) <==> state.deepgram_api_key is Some
                && state.cartesia_api_key is Some && state.cartesia_voice_id is None
        }),
{
}

/// The keys are handed out as they are set, where nothing is missing.
pub proof fn law_split_credentials(
    state: &AppState,
    res: Result<SplitCredentials, MissingSetting>,
)
    requires
        call_ensures(split_credentials, (state,), res),
    ensures
        res is Ok <==> state.deepgram_api_key is Some && state.cartesia_api_key is Some
            && state.cartesia_voice_id is Some,
        res matches Ok(keys) ==> keys.deepgram_api_key@ == state.deepgram_api_key->0@
            && keys.cartesia_api_key@ == state.cartesia_api_key->0@,
        state.deepgram_api_key is None ==> res == Err::<SplitCredentials, MissingSetting>(
            MissingSetting::DeepgramApiKey,
        ),
{
}

} // verus!
