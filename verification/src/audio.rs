//! Telephone audio: G.711 mu-law and linear samples, playback marks, and the
//! detection of speech in what the caller sends.

use crate::payload;
use crate::text;
use vstd::prelude::*;
use webrtc_vad::{SampleRate, Vad, VadMode};

verus! {

/// The time that one media frame lasts, in milliseconds.
pub const MEDIA_FRAME_MS: u32 = 20;

/// The bytes of one mu-law media frame.
pub const TWILIO_ULAW_FRAME_BYTES: usize = 160;

/// Mu-law samples per second.
pub const ULAW_SAMPLE_RATE: u32 = 8_000;

/// Mu-law bytes per millisecond.
pub const ULAW_BYTES_PER_MS: u32 = 8;

// ---------------------------------------------------------------------------
// Mu-law
// ---------------------------------------------------------------------------

/// How far the steps of a chord are apart, against the lowest chord.
pub open spec fn scale(chord: int) -> int {
    if chord <= 0 {
        1
    } else if chord == 1 {
        2
    } else if chord == 2 {
        4
    } else if chord == 3 {
        8
    } else if chord == 4 {
        16
    } else if chord == 5 {
        32
    } else if chord == 6 {
        64
    } else {
        128
    }
}

/// The chord of a biased magnitude: the greatest whose range starts at or
/// below it.
pub open spec fn chord_of(biased: int) -> int {
    if biased >= 16384 {
        7
    } else if biased >= 8192 {
        6
    } else if biased >= 4096 {
        5
    } else if biased >= 2048 {
        4
    } else if biased >= 1024 {
        3
    } else if biased >= 512 {
        2
    } else if biased >= 256 {
        1
    } else {
        0
    }
}

/// The linear value of a mu-law code. Inverted, a code holds a sign bit, three
/// bits of chord and four bits of step; the value is the middle of the step.
pub open spec fn ulaw_value(code: u8) -> int {
    let bits = 255 - code as int;
    let magnitude = ((bits % 16) * 8 + 132) * scale((bits / 16) % 8) - 132;
    if bits >= 128 {
        -magnitude
    } else {
        magnitude
    }
}

/// The magnitude of a sample, clipped to what mu-law can hold, with the bias.
pub open spec fn biased_magnitude(sample: int) -> int {
    let magnitude = if sample < 0 {
        -sample
    } else {
        sample
    };
    if magnitude > 32635 {
        32767
    } else {
        magnitude + 132
    }
}

/// The mu-law code of a linear sample.
pub open spec fn ulaw_code(sample: int) -> int {
    let biased = biased_magnitude(sample);
    let chord = chord_of(biased);
    let sign: int = if sample < 0 {
        128
    } else {
        0
    };
    255 - (sign + chord * 16 + (biased / (8 * scale(chord))) % 16)
}

fn scale_of(chord: u8) -> (res: i32)
    requires
        chord < 8,
    ensures
        res == scale(chord as int),
{
    match chord {
        0 => 1,
        1 => 2,
        2 => 4,
        3 => 8,
        4 => 16,
        5 => 32,
        6 => 64,
        _ => 128,
    }
}

/// The linear value of a mu-law code.
pub fn ulaw_to_linear_i16(u_val: u8) -> (res: i16)
    ensures
        res == ulaw_value(u_val),
{
    let bits: u8 = 255 - u_val;
    let chord: u8 = (bits / 16) % 8;
    let step: i32 = (bits % 16) as i32;
    let s: i32 = scale_of(chord);
    proof {
        assert((step * 8 + 132) * s <= 252 * 128 && (step * 8 + 132) * s >= 132)
            by (nonlinear_arith)
            requires
                0 <= step <= 15,
                1 <= s <= 128,
        ;
    }
    let magnitude: i32 = (step * 8 + 132) * s - 132;
    if bits >= 128 {
        (-magnitude) as i16
    } else {
        magnitude as i16
    }
}

/// The mu-law code of a linear sample.
pub fn linear_i16_to_ulaw(sample: i16) -> (res: u8)
    ensures
        res == ulaw_code(sample as int),
{
    let wide: i32 = sample as i32;
    let sign: i32 = if wide < 0 {
        128
    } else {
        0
    };
    let mut magnitude: i32 = if wide < 0 {
        -wide
    } else {
        wide
    };
    if magnitude > 32635 {
        magnitude = 32635;
    }
    let biased: i32 = magnitude + 132;
    let mut chord: u8 = 7;
    let mut low: i32 = 16384;
    while chord > 0 && biased < low
        invariant
            chord <= 7,
            low == 128 * scale(chord as int),
            132 <= biased,
            chord < 7 ==> biased < 2 * low,
            biased <= 32767,
        decreases chord,
    {
        chord -= 1;
        low = low / 2;
    }
    assert(chord == chord_of(biased as int));
    let s: i32 = scale_of(chord);
    let step: i32 = (biased / (8 * s)) % 16;
    (255 - (sign + chord as i32 * 16 + step)) as u8
}

/// A code turned into a sample and back is the same code, but for the code of
/// negative zero, which comes back as that of zero.
pub proof fn law_ulaw_codes_survive(code: u8)
    ensures
        ulaw_code(ulaw_value(code)) == if code == 0x7f {
            0xff
        } else {
            code as int
        },
{
    let bits = 255 - code as int;
    let step = bits % 16;
    let chord = (bits / 16) % 8;
    let s = scale(chord);
    let biased = (step * 8 + 132) * s;
    assert(biased == step * (8 * s) + 132 * s) by (nonlinear_arith)
        requires
            biased == (step * 8 + 132) * s,
    ;
    assert(0 <= step * (8 * s) <= 15 * (8 * s)) by (nonlinear_arith)
        requires
            0 <= step <= 15,
            s >= 1,
    ;
    assert(biased_magnitude(ulaw_value(code)) == biased);
    assert(chord_of(biased) == chord);
    assert(biased / (8 * s) == step + 16) by (nonlinear_arith)
        requires
            biased == step * (8 * s) + 132 * s,
            s >= 1,
    ;
}

/// A code and the code of the other sign stand for samples of one size and
/// opposite signs.
pub proof fn law_ulaw_is_symmetric(code: u8)
    requires
        code < 128,
    ensures
        ulaw_value((code + 128) as u8) == -ulaw_value(code),
{
}

/// A louder sample is never turned into the code of a quieter one: samples keep
/// their order.
pub proof fn law_ulaw_keeps_order(quiet: i16, loud: i16)
    requires
        quiet <= loud,
    ensures
        ulaw_value(ulaw_code(quiet as int) as u8) <= ulaw_value(ulaw_code(loud as int) as u8),
{
    lemma_ulaw_of_sample(quiet);
    lemma_ulaw_of_sample(loud);
    if 0 <= quiet {
        lemma_ulaw_steps(biased_magnitude(quiet as int), biased_magnitude(loud as int));
    } else if loud < 0 {
        lemma_ulaw_steps(biased_magnitude(loud as int), biased_magnitude(quiet as int));
    } else {
        lemma_ulaw_steps(132, biased_magnitude(quiet as int));
        lemma_ulaw_steps(132, biased_magnitude(loud as int));
    }
}

/// What a magnitude comes back as: the middle of its step.
spec fn middle_of_step(biased: int) -> int {
    let s = scale(chord_of(biased));
    (biased / (8 * s)) * (8 * s) + 4 * s - 132
}

proof fn lemma_ulaw_of_sample(sample: i16)
    ensures
        ({
            let middle = middle_of_step(biased_magnitude(sample as int));
            ulaw_value(ulaw_code(sample as int) as u8) == if sample < 0 {
                -middle
            } else {
                middle
            }
        }),
        132 <= biased_magnitude(sample as int) <= 32767,
{
    let biased = biased_magnitude(sample as int);
    let chord = chord_of(biased);
    let s = scale(chord);
    let step = (biased / (8 * s)) % 16;
    assert(16 <= biased / (8 * s) < 32) by (nonlinear_arith)
        requires
            128 * s <= biased < 256 * s,
            s >= 1,
    ;
    let code = ulaw_code(sample as int) as u8;
    let bits = 255 - code as int;
    assert(bits % 16 == step);
    assert((bits / 16) % 8 == chord);
    assert((step * 8 + 132) * s == (step + 16) * (8 * s) + 4 * s) by (nonlinear_arith);
}

proof fn lemma_ulaw_steps(quiet: int, loud: int)
    requires
        132 <= quiet <= loud <= 32767,
    ensures
        0 <= middle_of_step(quiet) <= middle_of_step(loud),
{
    let s = scale(chord_of(quiet));
    let t = scale(chord_of(loud));
    assert(quiet / (8 * s) >= 16 && (quiet / (8 * s) + 1) * (8 * s) <= 256 * s) by (nonlinear_arith)
        requires
            128 * s <= quiet < 256 * s,
            s >= 1,
    ;
    assert(loud / (8 * t) >= 16) by (nonlinear_arith)
        requires
            128 * t <= loud,
            t >= 1,
    ;
    if chord_of(quiet) == chord_of(loud) {
        assert(quiet / (8 * s) <= loud / (8 * s)) by (nonlinear_arith)
            requires
                quiet <= loud,
                s >= 1,
        ;
        assert((quiet / (8 * s)) * (8 * s) <= (loud / (8 * s)) * (8 * s)) by (nonlinear_arith)
            requires
                quiet / (8 * s) <= loud / (8 * s),
                s >= 1,
        ;
    } else {
        assert(t >= 2 * s);
        assert((loud / (8 * t)) * (8 * t) >= 128 * t) by (nonlinear_arith)
            requires
                loud / (8 * t) >= 16,
                t >= 1,
        ;
        assert((quiet / (8 * s) + 1) * (8 * s) == (quiet / (8 * s)) * (8 * s) + 8 * s)
            by (nonlinear_arith);
    }
    if s == 1 {
        assert(quiet / 8 >= 16);
    } else {
        assert((quiet / (8 * s)) * (8 * s) >= 128 * s) by (nonlinear_arith)
            requires
                quiet / (8 * s) >= 16,
                s >= 1,
        ;
    }
}

/// A sample turned into a code and back is off by at most half a step of its
/// chord, once it is clipped to what mu-law can hold.
pub proof fn law_ulaw_error_is_half_a_step(sample: i16)
    ensures
        ({
            let biased = biased_magnitude(sample as int);
            let clipped = if sample < 0 {
                132 - biased
            } else {
                biased - 132
            };
            let back = ulaw_value(ulaw_code(sample as int) as u8);
            -4 * scale(chord_of(biased)) <= back - clipped <= 4 * scale(chord_of(biased))
        }),
{
    let biased = biased_magnitude(sample as int);
    let chord = chord_of(biased);
    let s = scale(chord);
    let step = (biased / (8 * s)) % 16;
    assert(16 <= biased / (8 * s) < 32) by (nonlinear_arith)
        requires
            128 * s <= biased < 256 * s,
            s >= 1,
    ;
    let code = ulaw_code(sample as int) as u8;
    let bits = 255 - code as int;
    assert(bits % 16 == step);
    assert((bits / 16) % 8 == chord);
    assert((step + 16) * (8 * s) <= biased < (step + 17) * (8 * s)) by (nonlinear_arith)
        requires
            step + 16 == biased / (8 * s),
            s >= 1,
    ;
    assert((step * 8 + 132) * s == (step + 16) * (8 * s) + 4 * s) by (nonlinear_arith);
    assert((step + 17) * (8 * s) == (step + 16) * (8 * s) + 8 * s) by (nonlinear_arith);
}

// ---------------------------------------------------------------------------
// Samples
// ---------------------------------------------------------------------------

/// The signed sample of a low and a high byte.
pub open spec fn le_sample(low: u8, high: u8) -> int {
    let unsigned = low as int + 256 * high;
    if unsigned >= 32768 {
        unsigned - 65536
    } else {
        unsigned
    }
}

/// The samples of little-endian 16-bit audio; an odd last byte is dropped.
pub open spec fn pcm_samples(bytes: Seq<u8>) -> Seq<i16> {
    Seq::new(bytes.len() / 2, |i: int| le_sample(bytes[2 * i], bytes[2 * i + 1]) as i16)
}

/// The mu-law codes of samples.
pub open spec fn ulaw_codes(samples: Seq<i16>) -> Seq<u8> {
    samples.map_values(|sample: i16| ulaw_code(sample as int) as u8)
}

/// The samples of mu-law codes.
pub open spec fn ulaw_samples(codes: Seq<u8>) -> Seq<i16> {
    codes.map_values(|code: u8| ulaw_value(code) as i16)
}

/// The signed sample of a low and a high byte.
pub fn sample_from_le(low: u8, high: u8) -> (res: i16)
    ensures
        res == le_sample(low, high),
{
    let unsigned: i32 = low as i32 + 256 * high as i32;
    if unsigned >= 32768 {
        (unsigned - 65536) as i16
    } else {
        unsigned as i16
    }
}

/// The samples of little-endian 16-bit audio; an odd last byte is dropped.
pub fn pcm_s16le_to_i16(bytes: &[u8]) -> (res: Vec<i16>)
    ensures
        res@ == pcm_samples(bytes@),
{
    let n: usize = bytes.len() / 2;
    let mut res: Vec<i16> = Vec::new();
    for i in 0..n
        invariant
            n == bytes@.len() / 2,
            res@ == pcm_samples(bytes@).take(i as int),
    {
        let len: usize = bytes.len();
        assert(2 * i + 1 < len);
        res.push(sample_from_le(bytes[2 * i], bytes[2 * i + 1]));
        assert(res@ =~= pcm_samples(bytes@).take(i + 1));
    }
    assert(pcm_samples(bytes@).take(n as int) =~= pcm_samples(bytes@));
    res
}

/// The mu-law codes of samples.
pub fn pcm_i16_to_ulaw(samples: &[i16]) -> (res: Vec<u8>)
    ensures
        res@ == ulaw_codes(samples@),
{
    let n: usize = samples.len();
    let mut res: Vec<u8> = Vec::new();
    for i in 0..n
        invariant
            n == samples@.len(),
            res@ == ulaw_codes(samples@).take(i as int),
    {
        res.push(linear_i16_to_ulaw(samples[i]));
        assert(res@ =~= ulaw_codes(samples@).take(i + 1));
    }
    assert(ulaw_codes(samples@).take(n as int) =~= ulaw_codes(samples@));
    res
}

/// The samples of mu-law codes.
pub fn ulaw_bytes_to_pcm_i16(bytes: &[u8]) -> (res: Vec<i16>)
    ensures
        res@ == ulaw_samples(bytes@),
{
    let n: usize = bytes.len();
    let mut res: Vec<i16> = Vec::new();
    for i in 0..n
        invariant
            n == bytes@.len(),
            res@ == ulaw_samples(bytes@).take(i as int),
    {
        res.push(ulaw_to_linear_i16(bytes[i]));
        assert(res@ =~= ulaw_samples(bytes@).take(i + 1));
    }
    assert(ulaw_samples(bytes@).take(n as int) =~= ulaw_samples(bytes@));
    res
}

/// How long mu-law audio of `len` bytes lasts, in whole milliseconds.
pub open spec fn ulaw_ms(len: nat) -> nat {
    len / 8
}

/// How long the mu-law audio of a Base64 payload lasts, in whole milliseconds.
pub fn ulaw_base64_duration_ms(payload: &str) -> (res: Option<u64>)
    ensures
        res is Some <==> payload::base64_bytes(payload@) is Some,
        res matches Some(ms) ==> ms == ulaw_ms(payload::base64_bytes(payload@).unwrap().len()),
{
    match payload::decode_base64(payload) {
        Some(bytes) => Some(bytes.len() as u64 / ULAW_BYTES_PER_MS as u64),
        None => None,
    }
}

// ---------------------------------------------------------------------------
// Playback marks
// ---------------------------------------------------------------------------

/// The generation and the milliseconds of audio that a playback mark names:
/// the second and third part of a name whose first part is "assistant".
pub open spec fn playback_mark(name: Seq<char>) -> Option<(nat, nat)> {
    let parts = text::split(name, text::only('-'));
    if parts.len() >= 3 && parts[0] == "assistant"@ {
        match (text::parsed(parts[1], u64::MAX as nat), text::parsed(parts[2], u64::MAX as nat)) {
            (Some(generation), Some(audio_ms)) => Some((generation, audio_ms)),
            _ => None,
        }
    } else {
        None
    }
}

/// The name of the playback mark with this number.
pub open spec fn playback_mark_name(generation: nat, audio_ms: nat, number: nat) -> Seq<char> {
    "assistant-"@ + text::decimal(generation) + "-"@ + text::decimal(audio_ms) + "-"@ + text::decimal(number)
}

/// The generation and the milliseconds of audio that a playback mark names.
pub fn parse_playback_mark(name: &str) -> (res: Option<(u64, u64)>)
    ensures
        res is Some <==> playback_mark(name@) is Some,
        res matches Some(mark) ==> playback_mark(name@) == Some((mark.0 as nat, mark.1 as nat)),
{
    let parts = text::split_char(name, '-');
    let ghost pieces = text::split(name@, text::only('-'));
    assert(pieces.len() == parts@.len());
    assert forall|i: int| 0 <= i < parts@.len() implies pieces[i] == #[trigger] parts@[i]@ by {
        assert(text::texts(parts@)[i] == parts@[i]@);
    }
    if parts.len() < 3 || !text::same_text(parts[0].as_str(), "assistant") {
        return None;
    }
    match text::parse_u64(parts[1].as_str()) {
        None => None,
        Some(generation) => match text::parse_u64(parts[2].as_str()) {
            None => None,
            Some(audio_ms) => Some((generation, audio_ms)),
        },
    }
}

/// The name of the playback mark with this number.
pub fn make_playback_mark_name(generation: u64, audio_ms: u64, number: u64) -> (res: String)
    ensures
        res@ == playback_mark_name(generation as nat, audio_ms as nat, number as nat),
{
    let mut res = "assistant-".to_owned();
    res.append(text::decimal_text(generation).as_str());
    res.append("-");
    res.append(text::decimal_text(audio_ms).as_str());
    res.append("-");
    res.append(text::decimal_text(number).as_str());
    res
}

/// The name given to a mark tells the generation and the milliseconds that it
/// was made with.
pub proof fn law_playback_mark_round_trip(generation: u64, audio_ms: u64, number: u64)
    ensures
        playback_mark(
            playback_mark_name(generation as nat, audio_ms as nat, number as nat),
        ) == Some((generation as nat, audio_ms as nat)),
{
    let sep = text::only('-');
    let g = text::decimal(generation as nat);
    let a = text::decimal(audio_ms as nat);
    let n = text::decimal(number as nat);
    text::lemma_decimal(generation as nat);
    text::lemma_decimal(audio_ms as nat);
    text::lemma_decimal(number as nat);
    text::law_decimal_round_trip(generation as nat, u64::MAX as nat);
    text::law_decimal_round_trip(audio_ms as nat, u64::MAX as nat);
    reveal_strlit("assistant-");
    reveal_strlit("assistant");
    reveal_strlit("-");
    let first = "assistant"@;
    let empty = Seq::<char>::empty();
    assert(forall|i: int| 0 <= i < g.len() ==> text::is_digit(#[trigger] g[i]));
    assert(forall|i: int| 0 <= i < a.len() ==> text::is_digit(#[trigger] a[i]));
    assert(forall|i: int| 0 <= i < n.len() ==> text::is_digit(#[trigger] n[i]));
    text::lemma_split_extend(empty, first, sep);
    assert(empty + first =~= first);
    assert(text::split(first, sep) =~= seq![first]);
    text::lemma_split_next(first, '-', g, sep);
    let one = first.push('-') + g;
    text::lemma_split_next(one, '-', a, sep);
    let two = one.push('-') + a;
    text::lemma_split_next(two, '-', n, sep);
    let three = two.push('-') + n;
    assert(first.push('-') =~= "assistant-"@);
    assert(three =~= playback_mark_name(generation as nat, audio_ms as nat, number as nat));
    let parts = text::split(three, sep);
    assert(parts =~= seq![first, g, a, n]);
}

// ---------------------------------------------------------------------------
// Speech
// ---------------------------------------------------------------------------

/// The voice activity detector of `webrtc_vad`, a container of what it has
/// heard so far.
#[verifier::external_type_specification]
#[verifier::external_body]
pub struct ExVad(Vad);

/// The frames that a detector has heard since it was made, in order.
pub uninterp spec fn vad_heard(vad: Vad) -> Seq<Seq<i16>>;

/// The sample rate in Hz and the mode, from 0 for the most open to 3 for the
/// strictest, that a detector was made with.
pub uninterp spec fn vad_settings(vad: Vad) -> (int, int);

/// The settings of the detectors that listen for interruptions: 8 kHz, and
/// the mode that `webrtc_vad` calls aggressive.
pub open spec fn aggressive_8_khz() -> (int, int) {
    (8000, 2)
}

/// What an aggressive detector at 8 kHz says of the last of these frames when
/// it has heard them in order.
pub uninterp spec fn vad_decision(heard: Seq<Seq<i16>>) -> bool;

/// `Vad::new_with_rate_and_mode` at 8 kHz in aggressive mode: a detector that
/// has heard nothing. It panics only where no memory is left.
#[verifier::external_body]
fn new_vad() -> (res: Vad)
    ensures
        vad_heard(res) == Seq::<Seq<i16>>::empty(),
        vad_settings(res) == aggressive_8_khz(),
{
    Vad::new_with_rate_and_mode(SampleRate::Rate8kHz, VadMode::Aggressive)
}

/// `Vad::is_voice_segment` of an aggressive detector at 8 kHz on a frame of
/// 20 ms, a length that such a detector never refuses: it hears the frame and
/// keeps its settings, its answer depends on the frames heard so far alone, and
/// it panics on an empty frame only.
#[verifier::external_body]
fn hear_frame(vad: &mut Vad, frame: &[i16]) -> (res: Result<bool, ()>)
    requires
        vad_settings(*old(vad)) == aggressive_8_khz(),
        frame@.len() == 160,
    ensures
        vad_settings(*final(vad)) == vad_settings(*old(vad)),
        vad_heard(*final(vad)) == vad_heard(*old(vad)).push(frame@),
        res == Ok::<bool, ()>(vad_decision(vad_heard(*final(vad)))),
    no_unwind
{
    vad.is_voice_segment(frame)
}

/// The whole frames of 20 ms in `samples`.
pub open spec fn voice_frames(samples: Seq<i16>) -> Seq<Seq<i16>> {
    Seq::new(samples.len() / 160, |k: int| samples.subrange(160 * k, 160 * k + 160))
}

/// Whether one of `frames` is speech to a detector that has heard `heard`, and
/// what it has heard then: it stops at the first frame that is speech.
pub open spec fn first_speech(heard: Seq<Seq<i16>>, frames: Seq<Seq<i16>>) -> (
    bool,
    Seq<Seq<i16>>,
)
    decreases frames.len(),
{
    if frames.len() == 0 {
        (false, heard)
    } else {
        let now = heard.push(frames[0]);
        if vad_decision(now) {
            (true, now)
        } else {
            first_speech(now, frames.drop_first())
        }
    }
}

/// Hears whether the caller speaks.
pub struct WebRtcBargeInVad {
    vad: Vad,
}

impl WebRtcBargeInVad {
    /// The detector is aggressive and listens at 8 kHz.
    #[verifier::type_invariant]
    spec fn listens_aggressively(self) -> bool {
        vad_settings(self.vad) == aggressive_8_khz()
    }

    /// The frames heard so far.
    pub closed spec fn heard(self) -> Seq<Seq<i16>> {
        vad_heard(self.vad)
    }

    /// A detector that has heard nothing.
    pub fn new() -> (res: Self)
        ensures
            res.heard() == Seq::<Seq<i16>>::empty(),
    {
        WebRtcBargeInVad { vad: new_vad() }
    }

    /// Whether one of the whole frames of mu-law audio is speech. Frames after
    /// the first that is are not heard; neither is a rest shorter than a frame.
    pub fn is_speech_ulaw_bytes(&mut self, bytes: &[u8]) -> (res: bool)
        ensures
            (res, final(self).heard()) == first_speech(
                old(self).heard(),
                voice_frames(ulaw_samples(bytes@)),
            ),
    {
        let samples = ulaw_bytes_to_pcm_i16(bytes);
        let n: usize = samples.len() / 160;
        let ghost frames = voice_frames(ulaw_samples(bytes@));
        let ghost start = self.heard();
        let mut k: usize = 0;
        assert(frames.skip(0) =~= frames);
        while k < n
            invariant
                k <= n,
                n == samples@.len() / 160,
                samples@ == ulaw_samples(bytes@),
                frames == voice_frames(samples@),
                start == old(self).heard(),
                first_speech(start, frames) == first_speech(self.heard(), frames.skip(k as int)),
            decreases n - k,
        {
            let len: usize = samples.len();
            assert(160 * k + 160 <= len);
            let frame = vstd::slice::slice_subrange(samples.as_slice(), 160 * k, 160 * k + 160);
            proof {
                assert(frames.skip(k as int)[0] == frame@);
                assert(frames.skip(k as int).drop_first() =~= frames.skip(k + 1));
            }
            proof {
                use_type_invariant(&*self);
            }
            match hear_frame(&mut self.vad, frame) {
                Ok(speech) => if speech {
                    return true;
                },
                Err(_) => {},
            }
            k += 1;
        }
        assert(frames.skip(n as int) =~= Seq::<Seq<i16>>::empty());
        false
    }
}

// ---------------------------------------------------------------------------
// Laws
// ---------------------------------------------------------------------------

/// The sixteen quietest positive codes stand eight apart, from nought on; from
/// there on a code sixteen further down stands, with 132 added, for twice as
/// much.
pub proof fn law_ulaw_levels(code: u8)
    ensures
        240 <= code ==> ulaw_value(code) == 8 * (255 - code),
        144 <= code ==> ulaw_value((code - 16) as u8) + 132 == 2 * (ulaw_value(code) + 132),
{
    if 144 <= code {
        let bits = 255 - code as int;
        let step = bits % 16;
        let chord = (bits / 16) % 8;
        assert((bits + 16) % 16 == step);
        assert(((bits + 16) / 16) % 8 == chord + 1);
        assert(scale(chord + 1) == 2 * scale(chord));
        let s = scale(chord);
        assert((step * 8 + 132) * (2 * s) == 2 * ((step * 8 + 132) * s)) by (nonlinear_arith);
    }
}

/// A sample that is not negative is coded by the level it is nearest to among
/// those of its chord: it lies less than half a step above the level and no more
/// than half a step below, where half a step is four in the quietest chord and
/// twice as much in each that follows. What is louder than 32635 is coded as the
/// loudest level. A negative sample is coded as the positive one of its size,
/// with the other sign.
pub proof fn law_samples_are_coded(sample: i16)
    ensures
        ({
            let code = ulaw_code(sample as int);
            &&& 0 <= code <= 255
            &&& 0 <= sample ==> 128 <= code
            &&& 0 <= sample <= 32635 ==> {
                let half = 4 * vstd::arithmetic::power2::pow2(((255 - code) / 16) as nat);
                let level = ulaw_value(code as u8);
                level - half <= sample < level + half
            }
            &&& 32635 < sample ==> code == 128
            &&& sample < 0 ==> code + 128 == ulaw_code(-(sample as int))
        }),
{
    vstd::arithmetic::power2::lemma2_to64();
    lemma_ulaw_of_sample(sample);
    let biased = biased_magnitude(sample as int);
    let chord = chord_of(biased);
    let s = scale(chord);
    assert(16 <= biased / (8 * s) < 32) by (nonlinear_arith)
        requires
            128 * s <= biased < 256 * s,
            s >= 1,
    ;
    let q = biased / (8 * s);
    assert(q * (8 * s) <= biased < q * (8 * s) + 8 * s) by (nonlinear_arith)
        requires
            q == biased / (8 * s),
            s >= 1,
    ;
    let code = ulaw_code(sample as int);
    if 0 <= sample {
        assert((255 - code) / 16 == chord);
        assert(vstd::arithmetic::power2::pow2(chord as nat) == s);
    }
    if 32635 < sample {
        assert(biased == 32767);
    }
}

/// Two bytes make a sample, the low one first: as much as the low byte and 256
/// times the high one, or 65536 less where that is more than a sample can hold.
pub proof fn law_bytes_make_samples(bytes: Seq<u8>, i: int)
    requires
        0 <= i < bytes.len() / 2,
    ensures
        pcm_samples(bytes).len() == bytes.len() / 2,
        bytes[2 * i + 1] < 128 ==> pcm_samples(bytes)[i] == bytes[2 * i] + 256 * bytes[2 * i + 1],
        bytes[2 * i + 1] >= 128 ==> pcm_samples(bytes)[i] == bytes[2 * i] + 256 * bytes[2 * i + 1]
            - 65536,
{
}

/// Audio is coded and read sample by sample, in its order.
pub proof fn law_audio_is_coded_in_order(samples: Seq<i16>, codes: Seq<u8>, i: int)
    ensures
        ulaw_codes(samples).len() == samples.len(),
        ulaw_samples(codes).len() == codes.len(),
        0 <= i < samples.len() ==> ulaw_codes(samples)[i] == ulaw_code(samples[i] as int),
        0 <= i < codes.len() ==> ulaw_samples(codes)[i] == ulaw_value(codes[i]),
{
    if 0 <= i < samples.len() {
        law_samples_are_coded(samples[i]);
    }
    if 0 <= i < codes.len() {
        let bits = 255 - codes[i] as int;
        let step = bits % 16;
        let s = scale((bits / 16) % 8);
        assert(0 <= (step * 8 + 132) * s <= 252 * 128) by (nonlinear_arith)
            requires
                0 <= step <= 15,
                1 <= s <= 128,
        ;
    }
}

/// Eight bytes last a millisecond.
pub proof fn law_eight_bytes_last_a_millisecond(len: nat)
    ensures
        8 * ulaw_ms(len) <= len < 8 * ulaw_ms(len) + 8,
{
}

/// A mark is read where its name begins with `assistant` and two numbers follow,
/// with hyphens between them, whatever follows behind another hyphen. Nothing is
/// read from a name that begins otherwise, that lacks a part, or whose second or
/// third part is no number.
pub proof fn law_marks_are_read(
    first: Seq<char>,
    second: Seq<char>,
    third: Seq<char>,
    rest: Seq<char>,
)
    requires
        !first.contains('-'),
        !second.contains('-'),
        !third.contains('-'),
    ensures
        ({
            let generation = text::parsed(second, u64::MAX as nat);
            let audio_ms = text::parsed(third, u64::MAX as nat);
            let read = if first == "assistant"@ && generation is Some && audio_ms is Some {
                Some((generation->0, audio_ms->0))
            } else {
                None
            };
            let three = first.push('-') + (second.push('-') + third);
            &&& playback_mark(three) == read
            &&& playback_mark(three.push('-') + rest) == read
            &&& playback_mark(first) is None
            &&& playback_mark(first.push('-') + second) is None
        }),
{
    let sep = text::only('-');
    assert forall|i: int| 0 <= i < first.len() implies !sep(#[trigger] first[i]) by {}
    assert forall|i: int| 0 <= i < second.len() implies !sep(#[trigger] second[i]) by {}
    assert forall|i: int| 0 <= i < third.len() implies !sep(#[trigger] third[i]) by {}
    let two = first.push('-') + second;
    let three = first.push('-') + (second.push('-') + third);
    text::lemma_split_whole(first, sep);
    text::lemma_split_next(first, '-', second, sep);
    assert(three =~= two.push('-') + third);
    text::lemma_split_next(two, '-', third, sep);
    let parts = text::split(three, sep);
    assert(parts =~= seq![first, second, third]);
    let longer = three.push('-');
    assert(longer.drop_last() =~= three);
    assert(text::split(longer, sep) =~= parts.push(Seq::<char>::empty()));
    text::lemma_split_append(longer, rest, sep);
    assert(text::split(longer, sep).drop_last() =~= parts);
    let all = text::split(longer + rest, sep);
    assert(all[0] == first && all[1] == second && all[2] == third);
}

/// Audio is listened to every 160 samples, from the front, as often as there are
/// as many left.
pub proof fn law_voice_frames_are_whole(samples: Seq<i16>, k: int)
    ensures
        160 * voice_frames(samples).len() <= samples.len() < 160 * voice_frames(samples).len()
            + 160,
        0 <= k < voice_frames(samples).len() ==> voice_frames(samples)[k] == samples.subrange(
            160 * k,
            160 * k + 160,
        ),
{
}

/// Speech is heard where one of the frames is speech to a detector that has heard
/// all before it. The frames up to the first such are heard, and none behind it;
/// without one all are heard.
pub proof fn law_first_speech_is_heard(heard: Seq<Seq<i16>>, frames: Seq<Seq<i16>>, k: int)
    requires
        0 <= k <= frames.len(),
        forall|j: int| 0 <= j < k ==> !vad_decision(#[trigger] heard_up_to(heard, frames, j)),
        k < frames.len() ==> vad_decision(heard_up_to(heard, frames, k)),
    ensures
        first_speech(heard, frames) == if k < frames.len() {
            (true, heard + frames.take(k + 1))
        } else {
            (false, heard + frames)
        },
    decreases frames.len(),
{
    if frames.len() == 0 {
        assert(heard + frames =~= heard);
    } else {
        let now = heard.push(frames[0]);
        assert(heard_up_to(heard, frames, 0) =~= now);
        if k > 0 {
            assert(!vad_decision(heard_up_to(heard, frames, 0)));
            let rest = frames.drop_first();
            assert forall|j: int| 0 <= j < k - 1 implies !vad_decision(
                #[trigger] heard_up_to(now, rest, j),
            ) by {
                assert(heard_up_to(now, rest, j) =~= heard_up_to(heard, frames, j + 1));
            }
            if k < frames.len() {
                assert(heard_up_to(now, rest, k - 1) =~= heard_up_to(heard, frames, k));
            }
            law_first_speech_is_heard(now, rest, k - 1);
            assert(now + rest =~= heard + frames);
            if k < frames.len() {
                assert(now + rest.take(k) =~= heard + frames.take(k + 1));
            }
        } else {
            assert(heard + frames.take(1) =~= now);
        }
    }
}

/// What a detector has heard with frame `k`.
pub open spec fn heard_up_to(heard: Seq<Seq<i16>>, frames: Seq<Seq<i16>>, k: int) -> Seq<Seq<i16>> {
    heard + frames.take(k + 1)
}

/// Audio that can be read lasts a millisecond for eight of its bytes.
pub proof fn law_ulaw_base64_duration_ms(payload: &str, res: Option<u64>)
    requires
        call_ensures(ulaw_base64_duration_ms, (payload,), res),
    ensures
        res is Some <==> payload::base64_bytes(payload@) is Some,
        res matches Some(ms) ==> 8 * ms <= payload::base64_bytes(payload@)->0.len() < 8 * ms + 8,
{
}

/// A sample that is coded and read again comes back within half a step of where it
/// was. The upper half of the codes stands for what is not negative, the lower half
/// for what is not positive, and the sixteen quietest of the upper half stand eight
/// apart.
pub proof fn law_samples_survive(sample: i16, code: u8, back: i16, read: i16, again: u8)
    requires
        call_ensures(linear_i16_to_ulaw, (sample,), code),
        call_ensures(ulaw_to_linear_i16, (code,), back),
        call_ensures(ulaw_to_linear_i16, (again,), read),
        0 <= sample <= 32635,
    ensures
        code >= 128,
        ({
            let half = 4 * vstd::arithmetic::power2::pow2(((255 - code) / 16) as nat);
            back - half <= sample < back + half
        }),
        again >= 240 ==> read == 8 * (255 - again),
        again < 128 ==> read <= 0,
        again >= 128 ==> read >= 0,
{
    law_samples_are_coded(sample);
    law_ulaw_levels(again);
    let bits = 255 - again as int;
    let step = bits % 16;
    let s = scale((bits / 16) % 8);
    assert((step * 8 + 132) * s >= 132) by (nonlinear_arith)
        requires
            0 <= step,
            s >= 1,
    ;
}

/// A name that is given to a mark is read again as what it was given.
pub proof fn law_marks_are_named_and_read(
    generation: u64,
    audio_ms: u64,
    number: u64,
    made: String,
    name: &str,
    res: Option<(u64, u64)>,
)
    requires
        call_ensures(make_playback_mark_name, (generation, audio_ms, number), made),
        name@ == made@,
        call_ensures(parse_playback_mark, (name,), res),
    ensures
        res == Some((generation, audio_ms)),
{
    law_playback_mark_round_trip(generation, audio_ms, number);
}

/// Audio is converted sample by sample, in its order, and an odd last byte is
/// dropped.
pub proof fn law_audio_is_converted(
    bytes: &[u8],
    samples: Vec<i16>,
    pcm: &[i16],
    codes: Vec<u8>,
    read: Vec<i16>,
    i: int,
)
    requires
        call_ensures(pcm_s16le_to_i16, (bytes,), samples),
        call_ensures(pcm_i16_to_ulaw, (pcm,), codes),
        call_ensures(ulaw_bytes_to_pcm_i16, (bytes,), read),
    ensures
        samples@.len() == bytes@.len() / 2,
        codes@.len() == pcm@.len(),
        read@.len() == bytes@.len(),
        0 <= i < samples@.len() ==> samples@[i] == le_sample(bytes@[2 * i], bytes@[2 * i + 1]),
        0 <= i < pcm@.len() ==> codes@[i] == ulaw_code(pcm@[i] as int),
        0 <= i < bytes@.len() ==> read@[i] == ulaw_value(bytes@[i]),
{
    law_audio_is_coded_in_order(pcm@, bytes@, i);
    if 0 <= i < samples@.len() {
        law_bytes_make_samples(bytes@, i);
    }
}

} // verus!
