use voice_ai_orchestrator::audio::{
    linear_i16_to_ulaw, make_playback_mark_name, parse_playback_mark, pcm_i16_to_ulaw,
    pcm_s16le_to_i16, ulaw_base64_duration_ms, ulaw_bytes_to_pcm_i16, ulaw_to_linear_i16,
    WebRtcBargeInVad,
};
use voice_ai_orchestrator::payload::decode_base64;
use voice_ai_orchestrator::wav::{parse_wav_i16, resample_len};
use webrtc_vad::{SampleRate, Vad, VadMode};

#[test]
fn ulaw_codes_of_known_samples() {
    let known: [(i16, u8, i16); 10] = [
        (0, 255, 0),
        (1, 255, 0),
        (-1, 127, 0),
        (100, 242, 104),
        (-100, 114, -104),
        (1000, 206, 988),
        (-1000, 78, -988),
        (8000, 160, 7932),
        (32767, 128, 32124),
        (-32768, 0, -32124),
    ];
    for (sample, code, back) in known {
        assert_eq!(linear_i16_to_ulaw(sample), code);
        assert_eq!(ulaw_to_linear_i16(code), back);
    }
    assert_eq!(ulaw_to_linear_i16(0x7f), 0);
    assert_eq!(ulaw_to_linear_i16(0xff), 0);
}

#[test]
fn every_code_survives_but_negative_zero() {
    for code in 0..=255u8 {
        let back = linear_i16_to_ulaw(ulaw_to_linear_i16(code));
        assert_eq!(back, if code == 0x7f { 0xff } else { code });
    }
}

#[test]
fn every_sample_comes_back_within_half_a_step() {
    for sample in i16::MIN..=i16::MAX {
        let back = ulaw_to_linear_i16(linear_i16_to_ulaw(sample)) as i32;
        let clipped = (sample as i32).clamp(-32635, 32635);
        assert!((back - clipped).abs() <= 512);
        if clipped.abs() < 120 {
            assert!((back - clipped).abs() <= 4);
        }
    }
}

#[test]
fn codes_are_symmetric_and_keep_the_order_of_samples() {
    for code in 0..128u8 {
        assert_eq!(ulaw_to_linear_i16(code + 128), -ulaw_to_linear_i16(code));
    }
    let mut before = i16::MIN;
    for sample in i16::MIN..=i16::MAX {
        let back = ulaw_to_linear_i16(linear_i16_to_ulaw(sample));
        assert!(before <= back);
        before = back;
    }
}

#[test]
fn pcm_is_little_endian_and_an_odd_byte_is_dropped() {
    assert_eq!(
        pcm_s16le_to_i16(&[0x01, 0x00, 0xff, 0xff, 0x00, 0x80, 0x07]),
        vec![1, -1, -32768]
    );
    assert_eq!(pcm_s16le_to_i16(&[]), Vec::<i16>::new());
}

#[test]
fn chunks_are_converted_sample_by_sample() {
    let samples = vec![0, 1000, -1000, 32767];
    assert_eq!(pcm_i16_to_ulaw(&samples), vec![255, 206, 78, 128]);
    assert_eq!(
        ulaw_bytes_to_pcm_i16(&[255, 206, 78, 128]),
        vec![0, 988, -988, 32124]
    );
}

#[test]
fn a_payload_lasts_a_millisecond_for_eight_bytes() {
    assert_eq!(ulaw_base64_duration_ms("AAAAAAAAAAA="), Some(1));
    assert_eq!(ulaw_base64_duration_ms("AAAA"), Some(0));
    assert_eq!(ulaw_base64_duration_ms(""), Some(0));
    assert_eq!(ulaw_base64_duration_ms("AAA"), None);
    assert_eq!(ulaw_base64_duration_ms("not base64!"), None);
}

#[test]
fn base64_is_decoded() {
    assert_eq!(decode_base64("aGVsbG8="), Some(b"hello".to_vec()));
    assert_eq!(decode_base64("aGVsbG8"), None);
    assert_eq!(decode_base64("####"), None);
}

#[test]
fn marks_name_their_reply_and_length() {
    assert_eq!(make_playback_mark_name(7, 20, 3), "assistant-7-20-3");
    assert_eq!(parse_playback_mark("assistant-7-20-3"), Some((7, 20)));
    assert_eq!(parse_playback_mark("assistant-7-20"), Some((7, 20)));
    assert_eq!(parse_playback_mark("assistant-+7-20-x-y"), Some((7, 20)));
    assert_eq!(parse_playback_mark("assistant-7"), None);
    assert_eq!(parse_playback_mark("assistant--20"), None);
    assert_eq!(parse_playback_mark("caller-7-20-3"), None);
    assert_eq!(parse_playback_mark(""), None);
    let most = make_playback_mark_name(u64::MAX, u64::MAX, u64::MAX);
    assert_eq!(parse_playback_mark(&most), Some((u64::MAX, u64::MAX)));
    assert_eq!(parse_playback_mark("assistant-18446744073709551616-1"), None);
}

/// Something like a voice: a buzz with a slow swell.
fn buzz(frames: usize) -> Vec<u8> {
    (0..frames * 160)
        .map(|i| {
            let saw = ((i * 37) % 1600) as i32 * 12 - 9600;
            let swell = ((i / 40) % 50) as i32;
            linear_i16_to_ulaw((saw * swell / 50) as i16)
        })
        .collect()
}

#[test]
fn the_detector_hears_what_webrtc_hears() {
    let sound = buzz(60);
    let mut ours = WebRtcBargeInVad::new();
    let mut theirs = Vad::new_with_rate_and_mode(SampleRate::Rate8kHz, VadMode::Aggressive);
    let mut heard = 0;
    for frame in sound.chunks(160) {
        let pcm = ulaw_bytes_to_pcm_i16(frame);
        let wanted = theirs.is_voice_segment(&pcm).unwrap();
        assert_eq!(ours.is_speech_ulaw_bytes(frame), wanted);
        if wanted {
            heard += 1;
        }
    }
    assert!(heard > 0);
}

#[test]
fn silence_and_short_rests_are_no_speech() {
    let mut vad = WebRtcBargeInVad::new();
    for _ in 0..20 {
        assert!(!vad.is_speech_ulaw_bytes(&[0xff; 160]));
    }
    assert!(!vad.is_speech_ulaw_bytes(&buzz(1)[..159]));
    assert!(!vad.is_speech_ulaw_bytes(&[]));
}

fn wav(format: u16, channels: u16, rate: u32, bits: u16, data: &[u8]) -> Vec<u8> {
    let mut bytes = b"RIFF\0\0\0\0WAVEfmt ".to_vec();
    bytes.extend(16u32.to_le_bytes());
    bytes.extend(format.to_le_bytes());
    bytes.extend(channels.to_le_bytes());
    bytes.extend(rate.to_le_bytes());
    bytes.extend(0u32.to_le_bytes());
    bytes.extend(0u16.to_le_bytes());
    bytes.extend(bits.to_le_bytes());
    bytes.extend(b"data");
    bytes.extend((data.len() as u32).to_le_bytes());
    bytes.extend(data);
    bytes
}

#[test]
fn a_wav_file_gives_its_first_channel() {
    let mono = parse_wav_i16(&wav(1, 1, 8000, 16, &[1, 0, 2, 0, 3])).unwrap();
    assert_eq!((mono.sample_rate, mono.samples), (8000, vec![1, 2]));
    let stereo = parse_wav_i16(&wav(1, 2, 16000, 16, &[1, 0, 9, 0, 2, 0, 9, 0])).unwrap();
    assert_eq!((stereo.sample_rate, stereo.samples), (16000, vec![1, 2]));
}

#[test]
fn other_files_are_no_sound() {
    assert!(parse_wav_i16(&wav(3, 1, 8000, 16, &[1, 0])).is_none());
    assert!(parse_wav_i16(&wav(1, 0, 8000, 16, &[1, 0])).is_none());
    assert!(parse_wav_i16(&wav(1, 1, 8000, 8, &[1, 0])).is_none());
    assert!(parse_wav_i16(b"RIFF").is_none());
    let mut other = wav(1, 1, 8000, 16, &[1, 0]);
    other[8] = b'X';
    assert!(parse_wav_i16(&other).is_none());
    let mut cut = wav(1, 1, 8000, 16, &[1, 0, 2, 0]);
    cut.pop();
    assert!(parse_wav_i16(&cut).is_none());
}

#[test]
fn chunks_of_odd_length_are_padded() {
    let mut bytes = wav(1, 1, 8000, 16, &[5, 0]);
    bytes.extend(b"note");
    bytes.extend(3u32.to_le_bytes());
    bytes.extend([1, 2, 3, 0]);
    bytes.extend(b"data");
    bytes.extend(2u32.to_le_bytes());
    bytes.extend([7, 0]);
    assert_eq!(parse_wav_i16(&bytes).unwrap().samples, vec![7]);
}

#[test]
fn resampling_keeps_the_length_in_time() {
    assert_eq!(resample_len(1600, 16000, 8000), 800);
    assert_eq!(resample_len(3, 44100, 8000), 1);
    assert_eq!(resample_len(0, 16000, 8000), 0);
    assert_eq!(resample_len(5, 0, 8000), 0);
}
