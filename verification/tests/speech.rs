use voice_ai_orchestrator::environment::Environment;
use voice_ai_orchestrator::humanize::{
    detect_tone, humanization_metrics, insert_after_first_word, punctuation_profile,
    should_add_ack, BackgroundProfile, HumanizationConfig, HumanizedSpeech, ToneProfile,
};
use voice_ai_orchestrator::mixer::{
    cut_voice, is_speaking, ms_to_samples, voice_gain, ActiveLayer, AudioHumanizer,
    ChunkTreatment, LayerKind, LoopingLayer, VoiceGain,
};
use voice_ai_orchestrator::response_policy::{
    response_budget, response_instructions_for_budget,
};
use voice_ai_orchestrator::rng::{hash_seed, SmallRng};

#[test]
fn the_generator_draws_known_numbers() {
    let mut rng = SmallRng::new(1);
    let drawn: Vec<u32> = (0..4).map(|_| rng.next_u32()).collect();
    assert_eq!(drawn, vec![0, 268452102, 2602468399, 4115985667]);
    let mut rng = SmallRng::new(42);
    let picks: Vec<u64> = (0..5).map(|_| rng.range_u64(10, 20)).collect();
    assert_eq!(picks, vec![20, 13, 15, 17, 17]);
    assert_eq!(SmallRng::new(0).state, 1);
    assert_eq!(SmallRng::new(5).range_usize(9, 9), 9);
    assert_eq!(SmallRng::new(5).range_usize(9, 3), 9);
    assert!(SmallRng::new(1).chance(1));
    assert!(!SmallRng::new(1).chance(0));
}

#[test]
fn seeds_depend_on_every_byte() {
    assert_eq!(hash_seed(""), 0x9e37_79b9_7f4a_7c15);
    assert_eq!(hash_seed("a"), 0xc6ef_372f_e94f_82d2);
    assert_eq!(hash_seed("hello"), 0x72fe_94f8_2d8f_531c);
}

#[test]
fn profiles_are_named_in_any_case() {
    assert_eq!(BackgroundProfile::from_env(" OFF "), BackgroundProfile::NoBackground);
    assert_eq!(BackgroundProfile::from_env("caf\u{e9}"), BackgroundProfile::CoffeeCafe);
    assert_eq!(BackgroundProfile::from_env("Vacuum"), BackgroundProfile::CleaningVacuum);
    assert_eq!(BackgroundProfile::from_env("moon"), BackgroundProfile::Office);
    assert_eq!(ToneProfile::from_env("SERIOUS"), ToneProfile::Escalation);
    assert_eq!(ToneProfile::from_env("empathetic"), ToneProfile::Complaint);
    assert_eq!(ToneProfile::from_env(""), ToneProfile::Support);
}

#[test]
fn labels_name_their_profiles() {
    for profile in [
        BackgroundProfile::NoBackground,
        BackgroundProfile::Office,
        BackgroundProfile::CoffeeCafe,
        BackgroundProfile::Kitchen,
        BackgroundProfile::CleaningVacuum,
        BackgroundProfile::Custom,
    ] {
        assert_eq!(BackgroundProfile::from_env(profile.label()), profile);
    }
    for tone in [
        ToneProfile::Support,
        ToneProfile::Sales,
        ToneProfile::Complaint,
        ToneProfile::Escalation,
    ] {
        assert_eq!(ToneProfile::from_env(tone.label()), tone);
    }
    assert_eq!(BackgroundProfile::NoBackground.label(), "none");
}

#[test]
fn tones_are_heard_in_words() {
    assert_eq!(detect_tone("I am UPSET about this offer"), Some(ToneProfile::Complaint));
    assert_eq!(detect_tone("Security offer"), Some(ToneProfile::Escalation));
    assert_eq!(detect_tone("a good deal"), Some(ToneProfile::Sales));
    assert_eq!(detect_tone("hello"), None);
}

#[test]
fn punctuation_is_counted() {
    let short = punctuation_profile("hello there");
    assert!(!short.has_sentence_end && !short.long_response);
    let long = punctuation_profile("a b c d e f g h i j k l m n!");
    assert!(long.has_sentence_end && long.long_response);
    let thirteen = punctuation_profile("a b c d e f g h i j k l m?");
    assert!(thirteen.has_sentence_end && !thirteen.long_response);
}

#[test]
fn acknowledgements_are_not_doubled() {
    assert!(!should_add_ack("OKAY then"));
    assert!(!should_add_ack("I understand"));
    assert!(!should_add_ack("surely"));
    assert!(should_add_ack("I see"));
}

#[test]
fn fillers_follow_the_first_word() {
    assert_eq!(insert_after_first_word("well done you", "uh"), "well, uh, done you");
    assert_eq!(insert_after_first_word("well", "uh"), "well");
    assert_eq!(insert_after_first_word("well ", "uh"), "well ");
    assert_eq!(insert_after_first_word("", "uh"), "");
}

fn spoken(raw: &str) -> (String, ToneProfile, u64, bool) {
    let speech = HumanizedSpeech::from_response(raw, ToneProfile::Support);
    (speech.text, speech.tone, speech.initial_pause_ms, speech.breath_after_done)
}

#[test]
fn replies_are_made_human() {
    assert_eq!(
        spoken("Can you  repeat that?"),
        ("Okay, Can you repeat that?".to_string(), ToneProfile::Support, 0, false)
    );
    assert_eq!(spoken("okay fine"), ("okay fine".to_string(), ToneProfile::Support, 0, false));
    assert_eq!(
        spoken("There is a problem with your account, please hold."),
        (
            "Okay,, just, There is a problem with your account, please hold.".to_string(),
            ToneProfile::Complaint,
            0,
            false
        )
    );
    assert_eq!(
        spoken("Great price today"),
        ("Great, Great price today".to_string(), ToneProfile::Sales, 0, false)
    );
    assert_eq!(
        spoken("Tell me more about item 25 now please").0,
        "Perfect,, let me just, Tell me more about item 25 now please"
    );
    assert_eq!(spoken(""), (String::new(), ToneProfile::Support, 0, false));
}

#[test]
fn pauses_and_breaths_come_up() {
    let long = "one two three four five six seven eight nine ten eleven twelve thirteen fourteen.";
    assert_eq!(spoken(long).2, 543);
    assert_eq!(
        spoken("This fraud case 5."),
        ("Right, This fraud case 5.".to_string(), ToneProfile::Escalation, 297, false)
    );
    assert_eq!(
        spoken("Fine 7."),
        ("Perfect, Fine 7.".to_string(), ToneProfile::Support, 0, true)
    );
    for i in 0..500 {
        let pause = spoken(&format!("This fraud case {}.", i)).2;
        assert!(pause == 0 || (160..=320).contains(&pause));
    }
}

#[test]
fn spoken_text_is_left_as_it_is() {
    let speech = HumanizedSpeech::from_spoken_text("Buy  now", ToneProfile::Support);
    assert_eq!(speech.text, "Buy  now");
    assert_eq!(speech.tone, ToneProfile::Sales);
    assert_eq!(speech.initial_pause_ms, 0);
    let empty = HumanizedSpeech::from_spoken_text("", ToneProfile::Complaint);
    assert_eq!(empty.tone, ToneProfile::Complaint);
    assert!(!empty.breath_after_done);
}

#[test]
fn the_configuration_comes_from_the_environment() {
    let env = Environment {
        vars: vec![
            ("HUMANIZATION_ENABLED".to_string(), "off".to_string()),
            ("HUMANIZE_BACKGROUND_WAVS".to_string(), "a.wav, b.wav".to_string()),
            ("HUMANIZE_TONE".to_string(), "sales".to_string()),
        ],
    };
    let config = HumanizationConfig::from_env(&env);
    assert!(!config.enabled);
    assert_eq!(config.background_profile, BackgroundProfile::Office);
    assert_eq!(config.ambience_paths, vec!["a.wav".to_string(), "b.wav".to_string()]);
    assert_eq!(config.tone, ToneProfile::Sales);
    let metrics = humanization_metrics(
        &config,
        serde_json::from_str("0.05").unwrap(),
        serde_json::from_str("0.15").unwrap(),
    );
    let wanted: serde_json::Value = serde_json::from_str(
        r#"{"enabled": false, "tone": "sales", "background_profile": "office",
            "speaking_bg_gain": 0.05, "silence_bg_gain": 0.15, "ambience_assets": 2,
            "breath_assets": 0, "office_fx_assets": 0, "ambience_configured": true}"#,
    )
    .unwrap();
    assert_eq!(metrics, wanted);
}

#[test]
fn a_backlog_shortens_replies() {
    let normal = response_budget(64, 0, 1500, 2500);
    assert_eq!((normal.max_tokens, normal.mode), (64, "normal"));
    let low = response_budget(64, 1500, 1500, 2500);
    assert_eq!((low.max_tokens, low.mode), (40, "low"));
    let least = response_budget(64, 2500, 1500, 2500);
    assert_eq!((least.max_tokens, least.mode), (24, "very_low"));
    assert_eq!(response_budget(10, 9000, 1500, 2500).max_tokens, 10);
    assert_eq!(
        response_instructions_for_budget("Be brief.", low, 1500),
        "Be brief. Backlog is 1500ms. Use at most 10 words. One simple sentence only."
    );
    assert_eq!(
        response_instructions_for_budget("Be brief.", least, 2500),
        "Be brief. Backlog is 2500ms. Use at most 6 words. Prefer a direct question. Stop \
         immediately after the question."
    );
    assert_eq!(
        response_instructions_for_budget("Be brief.", normal, 7),
        "Be brief. Use at most 14 words. One sentence. Stop as soon as the next user action is \
         clear."
    );
}

fn speech(text: &str, pause: u64, breath: bool, tone: ToneProfile) -> HumanizedSpeech {
    HumanizedSpeech {
        text: text.to_string(),
        tone,
        initial_pause_ms: pause,
        breath_after_done: breath,
    }
}

#[test]
fn layers_play_what_they_hold() {
    let mut looping = LoopingLayer::new(vec![1, 2, 3]);
    let heard: Vec<i16> = (0..5).map(|_| looping.next_sample()).collect();
    assert_eq!(heard, vec![1, 2, 3, 1, 2]);
    assert_eq!(looping.next_samples(2), vec![3, 1]);
    let mut empty = LoopingLayer::new(vec![]);
    assert_eq!(empty.next_sample(), 0);
    assert_eq!(empty.next_samples(2), vec![0, 0]);
    let mut passing =
        ActiveLayer { samples: vec![4, 5], cursor: 1, kind: LayerKind::Breath };
    assert_eq!(passing.next_samples(3), vec![5, 0, 0]);
    assert!(passing.done());
    passing.cursor = 9;
    assert_eq!((passing.next_sample(), passing.cursor), (0, 9));
}

#[test]
fn loudness_tells_speech_from_silence() {
    assert!(!is_speaking(&[]));
    assert!(!is_speaking(&[220; 160]));
    assert!(is_speaking(&[221; 160]));
    assert!(is_speaking(&[i16::MIN; 3]));
}

#[test]
fn quiet_and_loud_voices_are_evened_out() {
    assert!(matches!(voice_gain(&[]), VoiceGain::Unity));
    assert!(matches!(voice_gain(&[0, 0]), VoiceGain::Unity));
    assert!(matches!(voice_gain(&[5_000, -3]), VoiceGain::Unity));
    assert!(matches!(voice_gain(&[28_000]), VoiceGain::Unity));
    assert!(matches!(voice_gain(&[4_999]), VoiceGain::Boost { peak: 4_999 }));
    assert!(matches!(voice_gain(&[i16::MIN]), VoiceGain::Attenuate { peak: 32_768 }));
}

#[test]
fn a_chunk_is_cut_into_frames() {
    let chunk: Vec<i16> = (0..400).collect();
    let frames = cut_voice(&chunk);
    assert_eq!(frames.iter().map(|f| f.len()).collect::<Vec<_>>(), vec![160, 160, 80]);
    assert_eq!(frames.concat(), chunk);
    assert_eq!(cut_voice(&[]).len(), 0);
    assert_eq!(cut_voice(&chunk[..160]).len(), 1);
    assert_eq!(ms_to_samples(900), 7200);
}

#[test]
fn the_pause_comes_before_the_voice() {
    let mut mixer = AudioHumanizer::new(
        true,
        BackgroundProfile::Office,
        &speech("hi", 25, false, ToneProfile::Support),
        &[vec![1, 2, 3], vec![]],
        &[],
        &[],
    );
    assert_eq!(mixer.begin_chunk(false), ChunkTreatment::Mixed);
    let frames = mixer.chunk_frames(&[vec![1000; 160]]);
    assert_eq!(frames.len(), 3);
    let first = &frames[0];
    assert_eq!(first.voice, vec![0; 160]);
    assert!(!first.speaking);
    assert_eq!(first.ambience.len(), 1);
    assert_eq!(&first.ambience[0][..5], &[1, 2, 3, 1, 2]);
    let second = &frames[1];
    assert_eq!(second.voice.len(), 40);
    assert_eq!(second.ambience[0][0], 2);
    let voice = &frames[2];
    assert!(voice.speaking);
    assert_eq!(voice.voice, vec![1000; 160]);
    assert_eq!(voice.ambience[0].len(), 160);
}

#[test]
fn a_pause_is_played_out_once() {
    let mut mixer = AudioHumanizer::new(
        true,
        BackgroundProfile::Office,
        &speech("hi", 543, false, ToneProfile::Support),
        &[],
        &[],
        &[],
    );
    let frames = mixer.silence_frames();
    assert_eq!(frames.len(), 28);
    assert_eq!(frames.iter().map(|frame| frame.voice.len()).sum::<usize>(), 543 * 8);
    assert!(frames.iter().all(|frame| !frame.speaking));
    assert_eq!(mixer.silence_frames().len(), 0);
    assert_eq!(mixer.chunk_frames(&[]).len(), 0);
    let voice = mixer.chunk_frames(&[vec![1; 160], vec![2; 80]]);
    assert_eq!((voice[0].voice[0], voice[1].voice.len()), (1, 80));
}

#[test]
fn states_stay_apart() {
    let mut next: Vec<u64> = (0..1000)
        .map(|state| {
            let mut rng = SmallRng { state };
            rng.next_u32();
            rng.state
        })
        .collect();
    next.sort();
    next.dedup();
    assert_eq!(next.len(), 1000);
}

#[test]
fn a_breath_follows_the_voice() {
    let mut mixer = AudioHumanizer::new(
        true,
        BackgroundProfile::Office,
        &speech("hi", 0, true, ToneProfile::Support),
        &[],
        &[vec![7; 200]],
        &[],
    );
    let tail = mixer.finish();
    assert_eq!(tail.len(), 2);
    assert_eq!(tail[0].layers[0], (LayerKind::Breath, vec![7; 160]));
    assert_eq!(&tail[1].layers[0].1[38..42], &[7, 7, 0, 0]);
    assert!(mixer.finish().len() > 0);
    mixer.clear();
    assert_eq!(mixer.finish().len(), 0);
}

#[test]
fn a_long_breath_is_cut_off() {
    let mut mixer = AudioHumanizer::new(
        true,
        BackgroundProfile::Office,
        &speech("hi", 0, true, ToneProfile::Support),
        &[],
        &[vec![7; 20_000]],
        &[],
    );
    assert_eq!(mixer.finish().len(), 46);
}

#[test]
fn an_interruption_silences_the_mixer() {
    let mut mixer = AudioHumanizer::new(
        true,
        BackgroundProfile::Office,
        &speech("hi", 500, true, ToneProfile::Support),
        &[],
        &[vec![7; 200]],
        &[],
    );
    assert_eq!(mixer.begin_chunk(true), ChunkTreatment::Dropped);
    assert_eq!(mixer.silence_frames().len(), 0);
    assert_eq!(mixer.finish().len(), 0);
}

#[test]
fn a_mixer_that_is_off_changes_nothing() {
    let mut mixer = AudioHumanizer::new(
        false,
        BackgroundProfile::Kitchen,
        &speech("hi", 500, true, ToneProfile::Sales),
        &[],
        &[vec![7; 200]],
        &[],
    );
    assert_eq!(mixer.begin_chunk(false), ChunkTreatment::Unchanged);
    assert_eq!(mixer.finish().len(), 0);
    assert_eq!(mixer.background(), BackgroundProfile::Kitchen);
    assert_eq!(mixer.tone(), ToneProfile::Sales);
}

/// Plays silence with one sound of the office and tells after how many frames
/// a sound begins.
fn first_sounds(text: &str, tone: ToneProfile, frames: usize) -> Vec<usize> {
    let mut mixer = AudioHumanizer::new(
        true,
        BackgroundProfile::Office,
        &speech(text, 0, false, tone),
        &[],
        &[],
        &[vec![5; 160]],
    );
    (0..frames)
        .filter(|_| mixer.voice_frame(&[0; 160]).layers.len() > 0)
        .collect()
}

#[test]
fn the_office_waits_as_long_as_its_tone_says() {
    for tone in [
        ToneProfile::Support,
        ToneProfile::Sales,
        ToneProfile::Complaint,
        ToneProfile::Escalation,
    ] {
        let density: f32 = match tone {
            ToneProfile::Support => 1.0,
            ToneProfile::Sales => 0.75,
            ToneProfile::Complaint => 1.2,
            ToneProfile::Escalation => 1.35,
        };
        let min = ((8000 as f32 * 1.5 * density) as usize).max(800);
        let max = ((8000 as f32 * 6.0 * density) as usize).max(1600);
        for text in ["one", "two", "three"] {
            let mut rng = SmallRng::new(hash_seed(text));
            let mut until = rng.range_usize(1_200, 6_400);
            let mut wanted = Vec::new();
            for frame in 0..3000 {
                until = until.saturating_sub(160);
                if until == 0 {
                    if rng.chance(20) {
                        rng.range_usize(0, 0);
                        wanted.push(frame);
                    }
                    until = rng.range_usize(min, max);
                }
            }
            assert!(wanted.len() > 0);
            assert_eq!(first_sounds(text, tone, 3000), wanted);
        }
    }
}

#[test]
fn the_office_is_quiet_while_somebody_speaks() {
    let mut mixer = AudioHumanizer::new(
        true,
        BackgroundProfile::Office,
        &speech("one", 0, false, ToneProfile::Sales),
        &[],
        &[],
        &[vec![5; 160]],
    );
    for _ in 0..3000 {
        assert_eq!(mixer.voice_frame(&[9000; 160]).layers.len(), 0);
    }
}
