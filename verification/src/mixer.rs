//! What is heard with the agent's voice: silence before it, ambience under it,
//! and the sounds and breaths that come and go.
//!
//! The mixer decides which samples sound together; it does not weigh them.

use crate::humanize::{BackgroundProfile, HumanizedSpeech, Speech, ToneProfile};
use crate::rng;
use crate::rng::SmallRng;
use vstd::prelude::*;

verus! {

/// What a passing layer is.
#[derive(Clone, Copy, Debug, PartialEq, Eq, Structural)]
pub enum LayerKind {
    Breath,
    OfficeFx,
}

/// Sound that starts again when it ends.
pub struct LoopingLayer {
    samples: Vec<i16>,
    cursor: usize,
}

/// Sound that plays once.
pub struct ActiveLayer {
    pub samples: Vec<i16>,
    pub cursor: usize,
    pub kind: LayerKind,
}

/// What a looping layer holds.
pub ghost struct Looping {
    pub samples: Seq<i16>,
    pub cursor: int,
}

/// What a passing layer holds.
pub ghost struct Passing {
    pub samples: Seq<i16>,
    pub cursor: int,
    pub kind: LayerKind,
}

impl View for LoopingLayer {
    type V = Looping;

    closed spec fn view(&self) -> Looping {
        Looping { samples: self.samples@, cursor: self.cursor as int }
    }
}

impl View for ActiveLayer {
    type V = Passing;

    open spec fn view(&self) -> Passing {
        Passing { samples: self.samples@, cursor: self.cursor as int, kind: self.kind }
    }
}

impl Looping {
    /// The next `n` samples: zero where there is no sound.
    pub open spec fn next(self, n: nat) -> Seq<i16> {
        Seq::new(
            n,
            |j: int|
                if self.samples.len() > 0 {
                    self.samples[(self.cursor + j) % self.samples.len() as int]
                } else {
                    0i16
                },
        )
    }

    /// The layer `n` samples later.
    pub open spec fn after(self, n: nat) -> Looping {
        if self.samples.len() > 0 {
            Looping { cursor: (self.cursor + n) % self.samples.len() as int, ..self }
        } else {
            self
        }
    }
}

impl Passing {
    /// The next `n` samples: zero once the sound has ended.
    pub open spec fn next(self, n: nat) -> Seq<i16> {
        Seq::new(
            n,
            |j: int|
                if self.cursor + j < self.samples.len() {
                    self.samples[self.cursor + j]
                } else {
                    0i16
                },
        )
    }

    /// The layer `n` samples later: one that has ended stays where it is.
    pub open spec fn after(self, n: nat) -> Passing {
        let cursor = if self.done() {
            self.cursor
        } else if self.cursor + n < self.samples.len() {
            self.cursor + n
        } else {
            self.samples.len() as int
        };
        Passing { cursor, ..self }
    }

    /// The sound has ended.
    pub open spec fn done(self) -> bool {
        self.cursor >= self.samples.len()
    }
}

impl LoopingLayer {
    /// The cursor stands on a sample, where there is one.
    #[verifier::type_invariant]
    spec fn cursor_in_sound(self) -> bool {
        self.samples@.len() > 0 ==> self.cursor < self.samples@.len()
    }

    /// A sound from its start.
    pub fn new(samples: Vec<i16>) -> (res: Self)
        ensures
            res@ == (Looping { samples: samples@, cursor: 0 }),
    {
        LoopingLayer { samples, cursor: 0 }
    }

    /// The next sample: zero where there is no sound.
    pub fn next_sample(&mut self) -> (res: i16)
        ensures
            final(self)@ == old(self)@.after(1),
            res == old(self)@.next(1)[0],
    {
        proof {
            use_type_invariant(&*self);
        }
        let len: usize = self.samples.len();
        if len == 0 {
            return 0;
        }
        let sample: i16 = self.samples[self.cursor];
        proof {
            let c = self.cursor as int;
            assert(c % len as int == c) by (nonlinear_arith)
                requires
                    0 <= c < len,
            ;
            assert((c + 1) % len as int == if c + 1 == len {
                0
            } else {
                c + 1
            }) by (nonlinear_arith)
                requires
                    0 <= c < len,
            ;
        }
        if self.cursor + 1 == len {
            self.cursor = 0;
        } else {
            self.cursor = self.cursor + 1;
        }
        sample
    }

    /// The next `n` samples.
    pub fn next_samples(&mut self, n: usize) -> (res: Vec<i16>)
        ensures
            final(self)@ == old(self)@.after(n as nat),
            res@ == old(self)@.next(n as nat),
    {
        proof {
            use_type_invariant(&*self);
        }
        let mut res: Vec<i16> = Vec::new();
        let ghost start = self@;
        let ghost len = start.samples.len() as int;
        proof {
            if len > 0 {
                assert(start.cursor % len == start.cursor) by (nonlinear_arith)
                    requires
                        0 <= start.cursor < len,
                ;
            }
        }
        for i in 0..n
            invariant
                start == old(self)@,
                len == start.samples.len(),
                self@ == start.after(i as nat),
                res@ == start.next(i as nat),
        {
            proof {
                if len > 0 {
                    let at = start.cursor + i;
                    vstd::arithmetic::div_mod::lemma_mod_twice(at, len);
                    vstd::arithmetic::div_mod::lemma_add_mod_noop_right(1, at, len);
                }
            }
            res.push(self.next_sample());
            assert(res@ =~= start.next((i + 1) as nat));
        }
        res
    }
}

impl ActiveLayer {
    /// The next sample: zero once the sound has ended.
    pub fn next_sample(&mut self) -> (res: i16)
        ensures
            final(self)@ == old(self)@.after(1),
            res == old(self)@.next(1)[0],
    {
        if self.cursor >= self.samples.len() {
            return 0;
        }
        let sample: i16 = self.samples[self.cursor];
        self.cursor = self.cursor + 1;
        sample
    }

    /// Whether the sound has ended.
    pub fn done(&self) -> (res: bool)
        ensures
            res == self@.done(),
    {
        self.cursor >= self.samples.len()
    }

    /// The next `n` samples.
    pub fn next_samples(&mut self, n: usize) -> (res: Vec<i16>)
        ensures
            final(self)@ == old(self)@.after(n as nat),
            res@ == old(self)@.next(n as nat),
    {
        let mut res: Vec<i16> = Vec::new();
        let ghost start = self@;
        for i in 0..n
            invariant
                start == old(self)@,
                start.cursor >= 0,
                self@ == start.after(i as nat),
                res@ == start.next(i as nat),
        {
            res.push(self.next_sample());
            assert(res@ =~= start.next((i + 1) as nat));
        }
        res
    }
}

// ---------------------------------------------------------------------------
// Levels
// ---------------------------------------------------------------------------

pub open spec fn magnitude(sample: i16) -> int {
    if sample < 0 {
        -(sample as int)
    } else {
        sample as int
    }
}

/// The sum of the magnitudes of samples.
pub open spec fn loudness(frame: Seq<i16>) -> int
    decreases frame.len(),
{
    if frame.len() == 0 {
        0
    } else {
        loudness(frame.drop_last()) + magnitude(frame.last())
    }
}

/// The mean magnitude, rounded down, is above 220.
pub open spec fn speaks(frame: Seq<i16>) -> bool {
    frame.len() > 0 && loudness(frame) / frame.len() as int > 220
}

/// Whether a frame holds speech.
pub fn is_speaking(frame: &[i16]) -> (res: bool)
    ensures
        res == speaks(frame@),
{
    if frame.is_empty() {
        return false;
    }
    let n: usize = frame.len();
    let mut sum: u128 = 0;
    for i in 0..n
        invariant
            n == frame@.len(),
            sum == loudness(frame@.take(i as int)),
            sum <= 32768 * i,
    {
        assert(frame@.take(i + 1).drop_last() =~= frame@.take(i as int));
        let sample: i32 = frame[i] as i32;
        let size: u128 = if sample < 0 {
            (-sample) as u128
        } else {
            sample as u128
        };
        sum = sum + size;
    }
    assert(frame@.take(n as int) =~= frame@);
    sum / n as u128 > 220
}

/// How the volume of a voice frame is changed.
#[derive(Clone, Copy, Debug, PartialEq, Eq, Structural)]
pub enum VoiceGain {
    /// As it is.
    Unity,
    /// Down to a peak of 28000.
    Attenuate { peak: u16 },
    /// Up to a peak of 5000, but no more than 1.4 times.
    Boost { peak: u16 },
}

/// The greatest magnitude of samples; zero where there are none.
pub open spec fn peak_of(frame: Seq<i16>) -> int
    decreases frame.len(),
{
    if frame.len() == 0 {
        0
    } else {
        let before = peak_of(frame.drop_last());
        if magnitude(frame.last()) > before {
            magnitude(frame.last())
        } else {
            before
        }
    }
}

/// How the volume of a voice frame is changed, by its peak.
pub open spec fn gain_for(peak: int) -> VoiceGain {
    if peak > 28_000 {
        VoiceGain::Attenuate { peak: peak as u16 }
    } else if 0 < peak < 5_000 {
        VoiceGain::Boost { peak: peak as u16 }
    } else {
        VoiceGain::Unity
    }
}

/// How the volume of a voice frame is changed.
pub fn voice_gain(frame: &[i16]) -> (res: VoiceGain)
    ensures
        res == gain_for(peak_of(frame@)),
{
    let n: usize = frame.len();
    let mut peak: u16 = 0;
    for i in 0..n
        invariant
            n == frame@.len(),
            peak == peak_of(frame@.take(i as int)),
    {
        assert(frame@.take(i + 1).drop_last() =~= frame@.take(i as int));
        let sample: i32 = frame[i] as i32;
        let size: u16 = if sample < 0 {
            (-sample) as u16
        } else {
            sample as u16
        };
        if size > peak {
            peak = size;
        }
    }
    assert(frame@.take(n as int) =~= frame@);
    if peak > 28_000 {
        VoiceGain::Attenuate { peak }
    } else if peak > 0 && peak < 5_000 {
        VoiceGain::Boost { peak }
    } else {
        VoiceGain::Unity
    }
}

/// The samples that play in `ms` milliseconds.
pub fn ms_to_samples(ms: u64) -> (res: usize)
    requires
        ms * 8_000 <= u64::MAX,
        ms * 8 <= usize::MAX,
    ensures
        res == ms * 8,
{
    (ms * 8_000 / 1_000) as usize
}

// ---------------------------------------------------------------------------
// The mixer
// ---------------------------------------------------------------------------

/// What sounds together for the length of a frame.
pub struct MixFrame {
    pub voice: Vec<i16>,
    /// Whether the voice speaks, so that the ambience steps back.
    pub speaking: bool,
    pub ambience: Vec<Vec<i16>>,
    pub layers: Vec<(LayerKind, Vec<i16>)>,
}

/// What a frame of a mix holds.
pub ghost struct Mix {
    pub voice: Seq<i16>,
    pub speaking: bool,
    pub ambience: Seq<Seq<i16>>,
    pub layers: Seq<(LayerKind, Seq<i16>)>,
}

pub open spec fn sounds(v: Seq<Vec<i16>>) -> Seq<Seq<i16>> {
    v.map_values(|s: Vec<i16>| s@)
}

pub open spec fn layer_sounds(v: Seq<(LayerKind, Vec<i16>)>) -> Seq<(LayerKind, Seq<i16>)> {
    v.map_values(|s: (LayerKind, Vec<i16>)| (s.0, s.1@))
}

impl View for MixFrame {
    type V = Mix;

    open spec fn view(&self) -> Mix {
        Mix {
            voice: self.voice@,
            speaking: self.speaking,
            ambience: sounds(self.ambience@),
            layers: layer_sounds(self.layers@),
        }
    }
}

pub open spec fn mixes(v: Seq<MixFrame>) -> Seq<Mix> {
    v.map_values(|frame: MixFrame| frame@)
}

/// Puts the agent's voice into its surroundings.
pub struct AudioHumanizer {
    enabled: bool,
    background: BackgroundProfile,
    rng: SmallRng,
    ambience: Vec<LoopingLayer>,
    breaths: Vec<Vec<i16>>,
    office_fx: Vec<Vec<i16>>,
    active_layers: Vec<ActiveLayer>,
    samples_until_fx: usize,
    pending_silence_samples: usize,
    breath_after_done: bool,
    tone: ToneProfile,
}

/// What a mixer holds.
pub ghost struct Mixer {
    pub enabled: bool,
    pub background: BackgroundProfile,
    pub state: u64,
    pub ambience: Seq<Looping>,
    pub breaths: Seq<Seq<i16>>,
    pub office_fx: Seq<Seq<i16>>,
    pub layers: Seq<Passing>,
    pub samples_until_fx: int,
    pub pending_silence: int,
    pub breath_after_done: bool,
    pub tone: ToneProfile,
}

pub open spec fn loops(v: Seq<LoopingLayer>) -> Seq<Looping> {
    v.map_values(|layer: LoopingLayer| layer@)
}

pub open spec fn passings(v: Seq<ActiveLayer>) -> Seq<Passing> {
    v.map_values(|layer: ActiveLayer| layer@)
}

impl View for AudioHumanizer {
    type V = Mixer;

    closed spec fn view(&self) -> Mixer {
        Mixer {
            enabled: self.enabled,
            background: self.background,
            state: self.rng.state,
            ambience: loops(self.ambience@),
            breaths: sounds(self.breaths@),
            office_fx: sounds(self.office_fx@),
            layers: passings(self.active_layers@),
            samples_until_fx: self.samples_until_fx as int,
            pending_silence: self.pending_silence_samples as int,
            breath_after_done: self.breath_after_done,
            tone: self.tone,
        }
    }
}

/// The sounds that are not empty.
pub open spec fn audible(v: Seq<Seq<i16>>) -> Seq<Seq<i16>> {
    v.filter(|s: Seq<i16>| s.len() > 0)
}

/// The least and the greatest number of samples between two sounds of the
/// office, by tone.
pub open spec fn fx_window(tone: ToneProfile) -> (int, int) {
    match tone {
        ToneProfile::Support => (12_000, 48_000),
        ToneProfile::Sales => (9_000, 36_000),
        ToneProfile::Complaint => (14_400, 57_600),
        ToneProfile::Escalation => (16_200, 64_800),
    }
}

impl Mixer {
    /// A mixer for a speech.
    pub open spec fn fresh(
        enabled: bool,
        background: BackgroundProfile,
        speech: Speech,
        ambience: Seq<Seq<i16>>,
        breaths: Seq<Seq<i16>>,
        office_fx: Seq<Seq<i16>>,
    ) -> Mixer {
        let state = rng::seeded(rng::seed_of(speech.text));
        Mixer {
            enabled,
            background,
            state: rng::next_state(state),
            ambience: audible(ambience).map_values(
                |samples: Seq<i16>| Looping { samples, cursor: 0 },
            ),
            breaths: audible(breaths),
            office_fx: audible(office_fx),
            layers: Seq::empty(),
            samples_until_fx: rng::picked(state, 1_200, 6_400),
            pending_silence: speech.initial_pause_ms * 8,
            breath_after_done: speech.breath_after_done,
            tone: speech.tone,
        }
    }

    /// What sounds with `voice`.
    pub open spec fn mixed(self, voice: Seq<i16>, speaking: bool) -> Mix {
        Mix {
            voice,
            speaking,
            ambience: self.ambience.map_values(|layer: Looping| layer.next(voice.len())),
            layers: self.layers.map_values(
                |layer: Passing| (layer.kind, layer.next(voice.len())),
            ),
        }
    }

    /// The layers that are left of `layers` after `n` samples.
    pub open spec fn left_of(layers: Seq<Passing>, n: nat) -> Seq<Passing> {
        layers.map_values(|layer: Passing| layer.after(n)).filter(|layer: Passing| !layer.done())
    }

    /// The mixer after `n` samples.
    pub open spec fn played(self, n: nat) -> Mixer {
        Mixer {
            ambience: self.ambience.map_values(|layer: Looping| layer.after(n)),
            layers: Mixer::left_of(self.layers, n),
            ..self
        }
    }

    /// The mixer without sounds, silence or breath to come.
    pub open spec fn cleared(self) -> Mixer {
        Mixer {
            layers: Seq::empty(),
            pending_silence: 0,
            breath_after_done: false,
            ..self
        }
    }

    /// The mixer with a breath to come, where it has breaths.
    pub open spec fn with_breath(self) -> Mixer {
        if self.breaths.len() == 0 {
            self
        } else {
            let last = self.breaths.len() - 1;
            let pick = rng::picked(self.state, 0, last);
            Mixer {
                state: rng::after_pick(self.state, 0, last),
                layers: self.layers.push(
                    Passing { samples: self.breaths[pick], cursor: 0, kind: LayerKind::Breath },
                ),
                ..self
            }
        }
    }

    /// The mixer with a sound of the office, one time in five, where nobody
    /// speaks and fewer than two sounds play.
    pub open spec fn with_chance_fx(self, speaking: bool) -> Mixer {
        if speaking || self.layers.len() >= 2 {
            self
        } else if !rng::comes_up(self.state, 20) {
            Mixer { state: rng::next_state(self.state), ..self }
        } else {
            let state = rng::next_state(self.state);
            let last = self.office_fx.len() - 1;
            let pick = rng::picked(state, 0, last);
            Mixer {
                state: rng::after_pick(state, 0, last),
                layers: self.layers.push(
                    Passing { samples: self.office_fx[pick], cursor: 0, kind: LayerKind::OfficeFx },
                ),
                ..self
            }
        }
    }

    /// The mixer with the office counted on by a frame: when the wait is over,
    /// a sound may come and the next wait is picked.
    pub open spec fn with_fx(self, speaking: bool, frame_len: int) -> Mixer {
        if self.office_fx.len() == 0 {
            self
        } else if self.samples_until_fx > frame_len {
            Mixer { samples_until_fx: self.samples_until_fx - frame_len, ..self }
        } else {
            let after = self.with_chance_fx(speaking);
            let (min, max) = fx_window(self.tone);
            Mixer {
                state: rng::next_state(after.state),
                samples_until_fx: rng::picked(after.state, min, max),
                ..after
            }
        }
    }

    /// What sounds once the voice is done: frames of 20 ms until every sound
    /// has ended or more than 900 ms have played.
    pub open spec fn tail(self, played: int) -> (Seq<Mix>, Mixer)
        decreases 7_400 - played,
    {
        if self.layers.len() == 0 || played > 7_200 {
            (Seq::empty(), self)
        } else {
            let (rest, after) = self.played(160).tail(played + 160);
            (seq![self.mixed(silence(160), false)] + rest, after)
        }
    }
}

impl Mixer {
    /// The length of the next frame of the silence to come: 20 ms, or what is
    /// left.
    pub open spec fn silence_len(self) -> nat {
        if self.pending_silence < 160 {
            self.pending_silence as nat
        } else {
            160
        }
    }

    /// The mixer after the next frame of the silence to come.
    pub open spec fn after_silence(self) -> Mixer {
        Mixer {
            pending_silence: self.pending_silence - self.silence_len(),
            ..self.played(self.silence_len())
        }
    }

    /// What sounds while the silence to come is played to its end, frame by
    /// frame, and the mixer after it.
    pub open spec fn pause(self) -> (Seq<Mix>, Mixer)
        decreases self.pending_silence,
    {
        if self.pending_silence <= 0 {
            (Seq::empty(), self)
        } else {
            let (rest, after) = self.after_silence().pause();
            (seq![self.mixed(silence(self.silence_len()), false)] + rest, after)
        }
    }

    /// What sounds with a frame of voice: a sound of the office may begin with
    /// it.
    pub open spec fn voiced(self, voice: Seq<i16>) -> Mix {
        self.with_fx(speaks(voice), voice.len() as int).mixed(voice, speaks(voice))
    }

    /// The mixer after a frame of voice.
    pub open spec fn after_voice(self, voice: Seq<i16>) -> Mixer {
        self.with_fx(speaks(voice), voice.len() as int).played(voice.len())
    }

    /// What sounds with frames of voice in order, and the mixer after them.
    pub open spec fn speech(self, voice: Seq<Seq<i16>>) -> (Seq<Mix>, Mixer)
        decreases voice.len(),
    {
        if voice.len() == 0 {
            (Seq::empty(), self)
        } else {
            let (before, mixer) = self.speech(voice.drop_last());
            (before.push(mixer.voiced(voice.last())), mixer.after_voice(voice.last()))
        }
    }

    /// What sounds with a chunk of voice: the silence to come, and then the
    /// frames of the voice.
    pub open spec fn chunk(self, voice: Seq<Seq<i16>>) -> (Seq<Mix>, Mixer) {
        let (silent, mixer) = self.pause();
        let (spoken, after) = mixer.speech(voice);
        (silent + spoken, after)
    }
}

/// The samples of voice in frames of a mix.
pub open spec fn voice_len(frames: Seq<Mix>) -> nat
    decreases frames.len(),
{
    if frames.len() == 0 {
        0
    } else {
        frames[0].voice.len() + voice_len(frames.drop_first())
    }
}

/// `n` samples of silence.
pub open spec fn silence(n: nat) -> Seq<i16> {
    Seq::new(n, |i: int| 0i16)
}

/// What becomes of a chunk of voice.
#[derive(Clone, Copy, Debug, PartialEq, Eq, Structural)]
pub enum ChunkTreatment {
    /// The caller interrupted: nothing is played.
    Dropped,
    /// The voice is played as it is.
    Unchanged,
    /// The silence to come and the voice are mixed frame by frame.
    Mixed,
}

/// Where the `k`th frame of 20 ms of so many samples ends.
pub open spec fn frame_end(len: int, k: int) -> int {
    if 160 * k + 160 < len {
        160 * k + 160
    } else {
        len
    }
}

/// The frames of a chunk of voice: 20 ms each, the last what is left.
pub open spec fn voice_chunks(samples: Seq<i16>) -> Seq<Seq<i16>> {
    let len = samples.len() as int;
    Seq::new(
        ((len + 159) / 160) as nat,
        |k: int| samples.subrange(160 * k, frame_end(len, k)),
    )
}

/// Cuts a chunk of voice into its frames.
pub fn cut_voice(samples: &[i16]) -> (res: Vec<Vec<i16>>)
    ensures
        sounds(res@) == voice_chunks(samples@),
{
    let len: usize = samples.len();
    let ghost wanted = voice_chunks(samples@);
    let mut res: Vec<Vec<i16>> = Vec::new();
    let mut at: usize = 0;
    let ghost mut k: int = 0;
    assert(sounds(res@) =~= wanted.take(0));
    while at < len
        invariant
            len == samples@.len(),
            wanted == voice_chunks(samples@),
            0 <= k <= wanted.len(),
            at == if 160 * k < len {
                160 * k
            } else {
                len as int
            },
            at == len ==> k == wanted.len(),
            sounds(res@) == wanted.take(k),
        decreases len - at,
    {
        let end: usize = if len - at > 160 {
            at + 160
        } else {
            len
        };
        let part = vstd::slice::slice_subrange(samples, at, end);
        let frame = copy_samples(part);
        let ghost held = frame@;
        let ghost old_res = res@;
        res.push(frame);
        proof {
            assert(k < wanted.len());
            assert(end == frame_end(len as int, k));
            assert(held =~= wanted[k]);
            assert(sounds(res@) =~= sounds(old_res).push(held));
            assert(wanted.take(k + 1) =~= wanted.take(k).push(held));
            k = k + 1;
        }
        at = end;
    }
    assert(wanted.take(k) =~= wanted);
    res
}

fn zeros(n: usize) -> (res: Vec<i16>)
    ensures
        res@ == silence(n as nat),
{
    let mut res: Vec<i16> = Vec::new();
    for i in 0..n
        invariant
            res@ == silence(i as nat),
    {
        res.push(0);
        assert(res@ =~= silence((i + 1) as nat));
    }
    res
}

fn copy_samples(samples: &[i16]) -> (res: Vec<i16>)
    ensures
        res@ == samples@,
{
    let mut res: Vec<i16> = Vec::new();
    let n: usize = samples.len();
    for i in 0..n
        invariant
            n == samples@.len(),
            res@ == samples@.take(i as int),
    {
        res.push(samples[i]);
        assert(res@ =~= samples@.take(i + 1));
    }
    assert(samples@.take(n as int) =~= samples@);
    res
}

/// The sounds that are not empty.
fn keep_audible(all: &[Vec<i16>]) -> (res: Vec<Vec<i16>>)
    ensures
        sounds(res@) == audible(sounds(all@)),
{
    let mut res: Vec<Vec<i16>> = Vec::new();
    let n: usize = all.len();
    proof {
        reveal(Seq::filter);
        assert(sounds(all@).take(0) =~= Seq::<Seq<i16>>::empty());
        assert(sounds(res@) =~= Seq::<Seq<i16>>::empty());
    }
    for i in 0..n
        invariant
            n == all@.len(),
            sounds(res@) == audible(sounds(all@).take(i as int)),
    {
        let samples = copy_samples(all[i].as_slice());
        proof {
            reveal(Seq::filter);
            let next = sounds(all@).take(i + 1);
            assert(next.drop_last() =~= sounds(all@).take(i as int));
            assert(next.last() == all@[i as int]@);
        }
        if samples.len() > 0 {
            let ghost old_res = res@;
            let ghost sample_view = samples@;
            res.push(samples);
            assert(sounds(res@) =~= sounds(old_res).push(sample_view));
        }
    }
    assert(sounds(all@).take(n as int) =~= sounds(all@));
    res
}

/// Each sound as a looping layer at its start.
fn as_loops(all: Vec<Vec<i16>>) -> (res: Vec<LoopingLayer>)
    ensures
        loops(res@) == sounds(all@).map_values(
            |samples: Seq<i16>| Looping { samples, cursor: 0 },
        ),
{
    let mut res: Vec<LoopingLayer> = Vec::new();
    let n: usize = all.len();
    let ghost wanted = sounds(all@).map_values(|samples: Seq<i16>| Looping { samples, cursor: 0 });
    for i in 0..n
        invariant
            n == all@.len(),
            wanted == sounds(all@).map_values(
                |samples: Seq<i16>| Looping { samples, cursor: 0 },
            ),
            loops(res@) == wanted.take(i as int),
    {
        let ghost old_res = res@;
        let layer = LoopingLayer::new(copy_samples(all[i].as_slice()));
        let ghost layer_view = layer@;
        res.push(layer);
        assert(loops(res@) =~= loops(old_res).push(layer_view));
        assert(wanted.take(i + 1) =~= wanted.take(i as int).push(layer_view));
    }
    assert(wanted.take(n as int) =~= wanted);
    res
}

impl AudioHumanizer {
    /// A mixer for a speech with the sounds that were loaded for it. Sounds
    /// without samples are left out.
    pub fn new(
        enabled: bool,
        background: BackgroundProfile,
        speech: &HumanizedSpeech,
        ambience: &[Vec<i16>],
        breaths: &[Vec<i16>],
        office_fx: &[Vec<i16>],
    ) -> (res: Self)
        requires
            speech.initial_pause_ms * 8_000 <= u64::MAX,
            speech.initial_pause_ms * 8 <= usize::MAX,
        ensures
            res@ == Mixer::fresh(
                enabled,
                background,
                speech@,
                sounds(ambience@),
                sounds(breaths@),
                sounds(office_fx@),
            ),
    {
        let ambience_layers = as_loops(keep_audible(ambience));
        let breaths = keep_audible(breaths);
        let office_fx = keep_audible(office_fx);
        let mut rng = SmallRng::new(rng::hash_seed(speech.text.as_str()));
        let samples_until_fx: usize = rng.range_usize(1_200, 6_400);
        let res = AudioHumanizer {
            enabled,
            background,
            rng,
            ambience: ambience_layers,
            breaths,
            office_fx,
            active_layers: Vec::new(),
            samples_until_fx,
            pending_silence_samples: ms_to_samples(speech.initial_pause_ms),
            breath_after_done: speech.breath_after_done,
            tone: speech.tone,
        };
        assert(res@.layers =~= Seq::<Passing>::empty());
        res
    }

    /// The noise that the mixer was made for.
    pub fn background(&self) -> (res: BackgroundProfile)
        ensures
            res == self@.background,
    {
        self.background
    }

    /// The tone that the mixer was made for.
    pub fn tone(&self) -> (res: ToneProfile)
        ensures
            res == self@.tone,
    {
        self.tone
    }

    /// Forgets the sounds, the silence and the breath to come.
    pub fn clear(&mut self)
        ensures
            final(self)@ == old(self)@.cleared(),
    {
        self.active_layers.clear();
        self.pending_silence_samples = 0;
        self.breath_after_done = false;
        assert(self@.layers =~= Seq::<Passing>::empty());
        assert(self@.ambience == old(self)@.ambience);
    }

    /// What becomes of a chunk of voice. An interruption clears the mixer.
    pub fn begin_chunk(&mut self, interrupted: bool) -> (res: ChunkTreatment)
        ensures
            final(self)@ == if interrupted {
                old(self)@.cleared()
            } else {
                old(self)@
            },
            res == if interrupted {
                ChunkTreatment::Dropped
            } else if !old(self)@.enabled {
                ChunkTreatment::Unchanged
            } else {
                ChunkTreatment::Mixed
            },
    {
        if interrupted {
            self.clear();
            return ChunkTreatment::Dropped;
        }
        if !self.enabled {
            return ChunkTreatment::Unchanged;
        }
        ChunkTreatment::Mixed
    }

    /// Plays the silence to come to its end, in frames of 20 ms and what is left.
    pub fn silence_frames(&mut self) -> (res: Vec<MixFrame>)
        ensures
            (mixes(res@), final(self)@) == old(self)@.pause(),
            final(self)@.pending_silence == 0,
            voice_len(mixes(res@)) == old(self)@.pending_silence,
    {
        proof {
            law_pause_is_played_out(self@);
        }
        let mut res: Vec<MixFrame> = Vec::new();
        let ghost start = self@;
        assert(mixes(res@) + start.pause().0 =~= start.pause().0);
        while self.pending_silence_samples > 0
            invariant
                start.pause() == (mixes(res@) + self@.pause().0, self@.pause().1),
            decreases self.pending_silence_samples,
        {
            let ghost before = self@;
            let ghost old_res = res@;
            let n: usize = if self.pending_silence_samples < 160 {
                self.pending_silence_samples
            } else {
                160
            };
            let frame = self.mix_frame(zeros(n).as_slice(), false);
            self.pending_silence_samples = self.pending_silence_samples - n;
            let ghost mix = frame@;
            res.push(frame);
            proof {
                assert(self@ == before.after_silence());
                assert(mixes(res@) =~= mixes(old_res).push(mix));
                let rest = self@.pause().0;
                assert(mixes(old_res) + (seq![mix] + rest) =~= mixes(res@) + rest);
            }
        }
        assert(mixes(res@) + Seq::<Mix>::empty() =~= mixes(res@));
        res
    }

    /// A frame of voice as it is heard: a sound of the office may begin with it.
    pub fn voice_frame(&mut self, voice: &[i16]) -> (res: MixFrame)
        ensures
            res@ == old(self)@.voiced(voice@),
            final(self)@ == old(self)@.after_voice(voice@),
    {
        let speaking = is_speaking(voice);
        self.maybe_schedule_office_fx(speaking, voice.len());
        self.mix_frame(voice, speaking)
    }

    /// A chunk of voice as it is heard: the silence to come, and then the frames
    /// of the voice.
    pub fn chunk_frames(&mut self, voice: &[Vec<i16>]) -> (res: Vec<MixFrame>)
        ensures
            (mixes(res@), final(self)@) == old(self)@.chunk(sounds(voice@)),
    {
        let mut res = self.silence_frames();
        let ghost silent = mixes(res@);
        let ghost start = self@;
        let ghost all = sounds(voice@);
        let n: usize = voice.len();
        assert(all.take(0) =~= Seq::<Seq<i16>>::empty());
        assert(silent + Seq::<Mix>::empty() =~= silent);
        for i in 0..n
            invariant
                n == voice@.len(),
                all == sounds(voice@),
                mixes(res@) == silent + start.speech(all.take(i as int)).0,
                self@ == start.speech(all.take(i as int)).1,
        {
            let ghost old_res = res@;
            let frame = self.voice_frame(voice[i].as_slice());
            let ghost mix = frame@;
            res.push(frame);
            proof {
                assert(all.take(i + 1).drop_last() =~= all.take(i as int));
                assert(all.take(i + 1).last() == voice@[i as int]@);
                assert(mixes(res@) =~= mixes(old_res).push(mix));
                let before = start.speech(all.take(i as int)).0;
                assert((silent + before).push(mix) =~= silent + before.push(mix));
            }
        }
        assert(all.take(n as int) =~= all);
        res
    }

    /// What sounds once the voice is done.
    pub fn finish(&mut self) -> (res: Vec<MixFrame>)
        ensures
            ({
                let start = if old(self)@.breath_after_done {
                    old(self)@.with_breath()
                } else {
                    old(self)@
                };
                if !old(self)@.enabled {
                    mixes(res@) == Seq::<Mix>::empty() && final(self)@ == old(self)@
                } else {
                    (mixes(res@), final(self)@) == start.tail(0)
                }
            }),
    {
        let mut res: Vec<MixFrame> = Vec::new();
        if !self.enabled {
            assert(mixes(res@) =~= Seq::<Mix>::empty());
            return res;
        }
        if self.breath_after_done {
            self.schedule_breath();
        }
        let ghost start = self@;
        let mut played: usize = 0;
        let blank = zeros(160);
        assert(mixes(res@) + start.tail(0).0 =~= start.tail(0).0);
        while self.active_layers.len() > 0 && played <= 7_200
            invariant
                blank@ == silence(160),
                played <= 7_360,
                start.tail(0) == (mixes(res@) + self@.tail(played as int).0, self@.tail(
                    played as int,
                ).1),
            decreases 7_400 - played,
        {
            let ghost before = self@;
            let ghost old_res = res@;
            let frame = self.mix_frame(blank.as_slice(), false);
            let ghost mix = frame@;
            res.push(frame);
            proof {
                assert(mixes(res@) =~= mixes(old_res).push(mix));
                let rest = before.played(160).tail(played + 160).0;
                assert(mixes(old_res) + (seq![mix] + rest) =~= mixes(res@) + rest);
            }
            played = played + 160;
        }
        assert(mixes(res@) + Seq::<Mix>::empty() =~= mixes(res@));
        res
    }

    /// What sounds with `voice`, and the mixer after it.
    fn mix_frame(&mut self, voice: &[i16], speaking: bool) -> (res: MixFrame)
        ensures
            res@ == old(self)@.mixed(voice@, speaking),
            final(self)@ == old(self)@.played(voice@.len()),
    {
        let n: usize = voice.len();
        let ambience = advance_loops(&mut self.ambience, n);
        let layers = advance_layers(&mut self.active_layers, n);
        drop_done(&mut self.active_layers);
        let res = MixFrame { voice: copy_samples(voice), speaking, ambience, layers };
        proof {
            assert(res@.ambience == old(self)@.mixed(voice@, speaking).ambience);
            assert(res@.layers == old(self)@.mixed(voice@, speaking).layers);
            assert(self@.ambience == old(self)@.played(n as nat).ambience);
        }
        res
    }

    /// A breath begins, where there are breaths.
    fn schedule_breath(&mut self)
        ensures
            final(self)@ == old(self)@.with_breath(),
    {
        if self.breaths.is_empty() {
            return;
        }
        let last: usize = self.breaths.len() - 1;
        let index: usize = self.rng.range_usize(0, last);
        let samples = copy_samples(self.breaths[index].as_slice());
        self.push_layer(samples, LayerKind::Breath);
    }

    /// A sound begins to play.
    fn push_layer(&mut self, samples: Vec<i16>, kind: LayerKind)
        ensures
            final(self)@ == (Mixer {
                layers: old(self)@.layers.push(Passing { samples: samples@, cursor: 0, kind }),
                ..old(self)@
            }),
    {
        let ghost before = self.active_layers@;
        let layer = ActiveLayer { samples, cursor: 0, kind };
        let ghost held = layer@;
        self.active_layers.push(layer);
        assert(passings(self.active_layers@) =~= passings(before).push(held));
    }

    /// Counts the office on by a frame.
    fn maybe_schedule_office_fx(&mut self, speaking: bool, frame_len: usize)
        ensures
            final(self)@ == old(self)@.with_fx(speaking, frame_len as int),
    {
        if self.office_fx.is_empty() {
            return;
        }
        self.samples_until_fx = self.samples_until_fx.saturating_sub(frame_len);
        if self.samples_until_fx == 0 {
            if !speaking && self.active_layers.len() < 2 && self.rng.chance(20) {
                let last: usize = self.office_fx.len() - 1;
                let index: usize = self.rng.range_usize(0, last);
                let samples = copy_samples(self.office_fx[index].as_slice());
                self.push_layer(samples, LayerKind::OfficeFx);
            }
            let (min, max): (usize, usize) = match self.tone {
                ToneProfile::Support => (12_000, 48_000),
                ToneProfile::Sales => (9_000, 36_000),
                ToneProfile::Complaint => (14_400, 57_600),
                ToneProfile::Escalation => (16_200, 64_800),
            };
            self.samples_until_fx = self.rng.range_usize(min, max);
        }
    }
}

/// The next samples of each looping layer.
fn advance_loops(layers: &mut Vec<LoopingLayer>, n: usize) -> (res: Vec<Vec<i16>>)
    ensures
        loops(final(layers)@) == loops(old(layers)@).map_values(
            |layer: Looping| layer.after(n as nat),
        ),
        sounds(res@) == loops(old(layers)@).map_values(|layer: Looping| layer.next(n as nat)),
{
    let count: usize = layers.len();
    let mut res: Vec<Vec<i16>> = Vec::new();
    let ghost start = layers@;
    for i in 0..count
        invariant
            start == old(layers)@,
            count == start.len(),
            layers@.len() == count,
            res@.len() == i,
            forall|j: int| i <= j < count ==> #[trigger] layers@[j] == start[j],
            forall|j: int| 0 <= j < i ==> (#[trigger] layers@[j])@ == start[j]@.after(n as nat),
            forall|j: int| 0 <= j < i ==> (#[trigger] res@[j])@ == start[j]@.next(n as nat),
    {
        assert(layers@[i as int] == start[i as int]);
        let samples = layers[i].next_samples(n);
        res.push(samples);
    }
    assert(loops(layers@) =~= loops(start).map_values(|layer: Looping| layer.after(n as nat)));
    assert(sounds(res@) =~= loops(start).map_values(|layer: Looping| layer.next(n as nat)));
    res
}

/// The next samples of each passing layer.
fn advance_layers(layers: &mut Vec<ActiveLayer>, n: usize) -> (res: Vec<(LayerKind, Vec<i16>)>)
    ensures
        passings(final(layers)@) == passings(old(layers)@).map_values(
            |layer: Passing| layer.after(n as nat),
        ),
        layer_sounds(res@) == passings(old(layers)@).map_values(
            |layer: Passing| (layer.kind, layer.next(n as nat)),
        ),
{
    let count: usize = layers.len();
    let mut res: Vec<(LayerKind, Vec<i16>)> = Vec::new();
    let ghost start = layers@;
    for i in 0..count
        invariant
            start == old(layers)@,
            count == start.len(),
            layers@.len() == count,
            res@.len() == i,
            forall|j: int| i <= j < count ==> #[trigger] layers@[j] == start[j],
            forall|j: int| 0 <= j < i ==> (#[trigger] layers@[j])@ == start[j]@.after(n as nat),
            forall|j: int|
                0 <= j < i ==> (#[trigger] res@[j]).0 == start[j].kind && res@[j].1@
                    == start[j]@.next(n as nat),
    {
        assert(layers@[i as int] == start[i as int]);
        let kind = layers[i].kind;
        let samples = layers[i].next_samples(n);
        res.push((kind, samples));
    }
    assert(passings(layers@) =~= passings(start).map_values(
        |layer: Passing| layer.after(n as nat),
    ));
    assert(layer_sounds(res@) =~= passings(start).map_values(
        |layer: Passing| (layer.kind, layer.next(n as nat)),
    ));
    res
}

/// Keeps the layers that have not ended.
fn drop_done(layers: &mut Vec<ActiveLayer>)
    ensures
        passings(final(layers)@) == passings(old(layers)@).filter(
            |layer: Passing| !layer.done(),
        ),
{
    let ghost start = passings(layers@);
    let ghost keep = |layer: Passing| !layer.done();
    let mut all: Vec<ActiveLayer> = Vec::new();
    std::mem::swap(&mut all, layers);
    let count: usize = all.len();
    let ghost mut i: int = 0;
    proof {
        reveal(Seq::filter);
        assert(passings(layers@) =~= Seq::<Passing>::empty());
        assert(start.take(0) =~= Seq::<Passing>::empty());
        assert(start.skip(0) =~= start);
    }
    while all.len() > 0
        invariant
            0 <= i <= start.len(),
            passings(all@) == start.skip(i),
            passings(layers@) == start.take(i).filter(keep),
            keep == (|layer: Passing| !layer.done()),
        decreases all@.len(),
    {
        let ghost before = all@;
        let layer = all.remove(0);
        let ghost held = layer@;
        proof {
            reveal(Seq::filter);
            assert(passings(before)[0] == held);
            assert(passings(before).len() == before.len());
            assert(i < start.len());
            assert(start.skip(i)[0] == start[i]);
            assert(passings(all@) =~= passings(before).drop_first());
            assert(start.skip(i).drop_first() =~= start.skip(i + 1));
            assert(start.take(i + 1).drop_last() =~= start.take(i));
            assert(start.take(i + 1).last() == held);
            i = i + 1;
        }
        let ended = layer.done();
        if !ended {
            let ghost old_layers = layers@;
            layers.push(layer);
            assert(passings(layers@) =~= passings(old_layers).push(held));
        }
    }
    proof {
        assert(passings(all@).len() == 0);
        assert(start.take(i) =~= start);
    }
}

// ---------------------------------------------------------------------------
// Laws
// ---------------------------------------------------------------------------

/// After an interruption nothing is left to be heard: no silence comes, and
/// what sounds at the end is nothing.
pub proof fn law_interruption_silences(mixer: Mixer)
    ensures
        mixer.cleared().pending_silence == 0,
        !mixer.cleared().breath_after_done,
        mixer.cleared().tail(0) == (Seq::<Mix>::empty(), mixer.cleared()),
        forall|voice: Seq<i16>, speaking: bool|
            #![trigger mixer.cleared().mixed(voice, speaking)]
            mixer.cleared().mixed(voice, speaking).layers.len() == 0,
{
}

/// A pause is played out: as many samples of silence sound as were to come,
/// none is left, and a second pause is empty.
pub proof fn law_pause_is_played_out(mixer: Mixer)
    requires
        mixer.pending_silence >= 0,
    ensures
        voice_len(mixer.pause().0) == mixer.pending_silence,
        mixer.pause().1.pending_silence == 0,
        mixer.pause().1.pause() == (Seq::<Mix>::empty(), mixer.pause().1),
    decreases mixer.pending_silence,
{
    if mixer.pending_silence > 0 {
        let next = mixer.after_silence();
        law_pause_is_played_out(next);
        let first = mixer.mixed(silence(mixer.silence_len()), false);
        let all = seq![first] + next.pause().0;
        assert(all.drop_first() =~= next.pause().0);
        assert(all[0] == first);
    }
}

/// The voice is heard whole and in order: behind the silence, each frame of a
/// chunk sounds with the frame of voice that it was made of.
pub proof fn law_chunk_keeps_voice(mixer: Mixer, voice: Seq<Seq<i16>>)
    requires
        mixer.pending_silence >= 0,
    ensures
        mixer.chunk(voice).0.len() == mixer.pause().0.len() + voice.len(),
        forall|i: int|
            0 <= i < voice.len() ==> (#[trigger] mixer.chunk(voice).0[mixer.pause().0.len()
                + i]).voice == voice[i],
        mixer.chunk(voice).1.pending_silence == 0,
{
    law_pause_is_played_out(mixer);
    lemma_speech_keeps_voice(mixer.pause().1, voice);
    let silent = mixer.pause().0;
    let spoken = mixer.pause().1.speech(voice).0;
    assert forall|i: int| 0 <= i < voice.len() implies (#[trigger] mixer.chunk(
        voice,
    ).0[silent.len() + i]).voice == voice[i] by {
        assert((silent + spoken)[silent.len() + i] == spoken[i]);
    }
}

proof fn lemma_speech_keeps_voice(mixer: Mixer, voice: Seq<Seq<i16>>)
    ensures
        mixer.speech(voice).0.len() == voice.len(),
        forall|i: int|
            0 <= i < voice.len() ==> (#[trigger] mixer.speech(voice).0[i]).voice == voice[i],
        mixer.speech(voice).1.pending_silence == mixer.pending_silence,
    decreases voice.len(),
{
    if voice.len() > 0 {
        lemma_speech_keeps_voice(mixer, voice.drop_last());
    }
}

/// Each frame of a mix is as long as the voice in it.
pub proof fn law_mix_keeps_length(mixer: Mixer, voice: Seq<i16>, speaking: bool)
    ensures
        mixer.mixed(voice, speaking).voice == voice,
        forall|i: int|
            0 <= i < mixer.ambience.len() ==> (#[trigger] mixer.mixed(
                voice,
                speaking,
            ).ambience[i]).len() == voice.len(),
        forall|i: int|
            0 <= i < mixer.layers.len() ==> (#[trigger] mixer.mixed(
                voice,
                speaking,
            ).layers[i]).1.len() == voice.len(),
{
}

/// What sounds at the end lasts at most 46 frames of 20 ms, and unless it lasts
/// that long nothing is left to sound.
pub proof fn law_tail_is_bounded(mixer: Mixer, played: int)
    requires
        0 <= played,
        played % 160 == 0,
    ensures
        mixer.tail(played).0.len() * 160 <= if played > 7_200 {
            0int
        } else {
            7_360 - played
        },
        mixer.tail(played).0.len() * 160 + played <= 7_200 ==> mixer.tail(
            played,
        ).1.layers.len() == 0,
    decreases 7_400 - played,
{
    if mixer.layers.len() > 0 && played <= 7_200 {
        law_tail_is_bounded(mixer.played(160), played + 160);
    }
}

/// No sample of a chunk is lost or played twice: its frames in order are the
/// chunk.
pub proof fn law_voice_chunks_keep_samples(samples: Seq<i16>)
    ensures
        voice_chunks(samples).flatten_alt() == samples,
{
    let chunks = voice_chunks(samples);
    lemma_chunks_up_to(samples, chunks.len() as int);
    assert(chunks.take(chunks.len() as int) =~= chunks);
    assert(samples.take(samples.len() as int) =~= samples);
}

proof fn lemma_chunks_up_to(samples: Seq<i16>, k: int)
    requires
        0 <= k <= voice_chunks(samples).len(),
    ensures
        voice_chunks(samples).take(k).flatten_alt() == samples.take(
            frame_end(samples.len() as int, k - 1),
        ),
    decreases k,
{
    let chunks = voice_chunks(samples);
    let len = samples.len() as int;
    if k == 0 {
        assert(chunks.take(0) =~= Seq::<Seq<i16>>::empty());
        assert(samples.take(frame_end(len, -1)) =~= Seq::<i16>::empty());
    } else {
        lemma_chunks_up_to(samples, k - 1);
        assert(chunks.take(k).drop_last() =~= chunks.take(k - 1));
        assert(chunks.take(k).last() == chunks[k - 1]);
        assert(frame_end(len, k - 2) == 160 * (k - 1));
        assert(samples.take(160 * (k - 1)) + samples.subrange(
            160 * (k - 1),
            frame_end(len, k - 1),
        ) =~= samples.take(frame_end(len, k - 1)));
    }
}

/// Sound that starts again plays sample by sample: first the one its cursor stands
/// on, then the one behind it, and after the last the first again. How it is cut
/// into frames does not matter.
pub proof fn law_looping_sound_goes_round(layer: Looping, n: nat, m: nat)
    requires
        0 <= layer.cursor,
        layer.samples.len() > 0 ==> layer.cursor < layer.samples.len(),
    ensures
        layer.samples.len() > 0 ==> layer.next(1) == seq![layer.samples[layer.cursor]],
        layer.samples.len() > 0 ==> layer.after(1).cursor == if layer.cursor + 1
            < layer.samples.len() {
            layer.cursor + 1
        } else {
            0
        },
        layer.samples.len() == 0 ==> layer.next(n) == silence(n) && layer.after(n) == layer,
        layer.after(n).samples == layer.samples,
        layer.after(0) == layer,
        layer.next(n + m) == layer.next(n) + layer.after(n).next(m),
        layer.after(n + m) == layer.after(n).after(m),
{
    let len = layer.samples.len() as int;
    if len > 0 {
        let c = layer.cursor;
        vstd::arithmetic::div_mod::lemma_small_mod(c as nat, len as nat);
        if c + 1 < len {
            vstd::arithmetic::div_mod::lemma_small_mod((c + 1) as nat, len as nat);
        } else {
            vstd::arithmetic::div_mod::lemma_mod_self_0(len);
        }
        assert forall|j: int| 0 <= j implies #[trigger] ((c + n) % len + j) % len == (c + n + j)
            % len by {
            vstd::arithmetic::div_mod::lemma_add_mod_noop_right(j, c + n, len);
        }
        assert(((c + n) % len + m) % len == (c + n + m) % len);
        assert(c + (n + m) == c + n + m);
        let all = layer.next(n + m);
        let later = layer.after(n).next(m);
        assert forall|j: int| 0 <= j < n + m implies #[trigger] all[j] == (layer.next(n)
            + later)[j] by {
            if j >= n {
                let k = j - n;
                assert(later[k] == layer.samples[((c + n) % len + k) % len]);
                assert(((c + n) % len + k) % len == (c + n + k) % len);
            }
        }
        assert(layer.next(1) =~= seq![layer.samples[c]]);
    } else {
        assert(layer.next(n) =~= silence(n));
    }
    assert(layer.next(n + m) =~= layer.next(n) + layer.after(n).next(m));
}

/// Sound that plays once plays sample by sample from where its cursor stands, and
/// ends behind its last sample, from where on it is silent. How it is cut into
/// frames does not matter.
pub proof fn law_passing_sound_plays_once(layer: Passing, n: nat, m: nat)
    requires
        0 <= layer.cursor,
    ensures
        layer.cursor < layer.samples.len() ==> {
            &&& !layer.done()
            &&& layer.next(1) == seq![layer.samples[layer.cursor]]
            &&& layer.after(1).cursor == layer.cursor + 1
        },
        layer.cursor >= layer.samples.len() ==> {
            &&& layer.done()
            &&& layer.next(n) == silence(n)
            &&& layer.after(n) == layer
        },
        layer.after(n).samples == layer.samples,
        layer.after(n).kind == layer.kind,
        layer.after(0) == layer,
        layer.next(n + m) == layer.next(n) + layer.after(n).next(m),
        layer.after(n + m) == layer.after(n).after(m),
{
    assert(layer.next(n + m) =~= layer.next(n) + layer.after(n).next(m));
    if layer.cursor < layer.samples.len() {
        assert(layer.next(1) =~= seq![layer.samples[layer.cursor]]);
    } else {
        assert(layer.next(n) =~= silence(n));
    }
}

/// A frame is as loud as the sizes of its samples together, whatever their order:
/// so frames add up, and one sample is as loud as it is far from nought.
pub proof fn law_loudness_adds_up(frame: Seq<i16>, more: Seq<i16>, sample: i16)
    ensures
        loudness(frame + more) == loudness(frame) + loudness(more),
        loudness(Seq::empty()) == 0,
        loudness(seq![sample]) == if sample >= 0 {
            sample as int
        } else {
            0 - sample
        },
        loudness(frame) >= 0,
    decreases frame.len() + more.len(),
{
    reveal_with_fuel(loudness, 2);
    assert(seq![sample].drop_last() =~= Seq::<i16>::empty());
    if frame.len() > 0 {
        law_loudness_adds_up(frame.drop_last(), Seq::empty(), sample);
    }
    if more.len() == 0 {
        assert(frame + more =~= frame);
    } else {
        law_loudness_adds_up(frame, more.drop_last(), sample);
        assert((frame + more).drop_last() =~= frame + more.drop_last());
    }
}

/// The agent is heard to speak in a frame where its samples are more than 220 off
/// nought on average, rounded down.
pub proof fn law_is_speaking(frame: &[i16], res: bool)
    requires
        call_ensures(is_speaking, (frame,), res),
    ensures
        frame@.len() == 0 ==> !res,
        frame@.len() > 0 ==> (res <==> loudness(frame@) >= 221 * frame@.len()),
{
    if frame@.len() > 0 {
        let n = frame@.len() as int;
        let all = loudness(frame@);
        law_loudness_adds_up(frame@, Seq::empty(), 0);
        assert(all / n > 220 <==> all >= 221 * n) by (nonlinear_arith)
            requires
                n > 0,
                all >= 0,
        ;
    }
}

/// The peak of a frame is the size of its loudest sample, which is found at `k`.
pub proof fn law_peak_is_the_loudest(frame: Seq<i16>, i: int) -> (k: int)
    ensures
        0 <= i < frame.len() ==> -peak_of(frame) <= frame[i] <= peak_of(frame),
        frame.len() == 0 ==> peak_of(frame) == 0,
        peak_of(frame) >= 0,
        frame.len() > 0 ==> 0 <= k < frame.len() && (frame[k] == peak_of(frame) || frame[k]
            == -peak_of(frame)),
    decreases frame.len(),
{
    if frame.len() > 0 {
        let front = frame.drop_last();
        let k = law_peak_is_the_loudest(front, i);
        let last = frame.len() - 1;
        if 0 <= i < last {
            assert(frame[i] == front[i]);
        }
        if magnitude(frame.last()) > peak_of(front) || front.len() == 0 {
            last
        } else {
            assert(frame[k] == front[k]);
            k
        }
    } else {
        0
    }
}

/// A voice is made quieter where its peak is above 28000 and louder where it is
/// below 5000 and not silent, in both cases by its peak, and is otherwise left as
/// it is.
pub proof fn law_gain_goes_by_the_peak(peak: int)
    requires
        0 <= peak <= 32768,
    ensures
        peak > 28_000 <==> gain_for(peak) == (VoiceGain::Attenuate { peak: peak as u16 }),
        1 <= peak <= 4_999 <==> gain_for(peak) == (VoiceGain::Boost { peak: peak as u16 }),
        peak == 0 || 5_000 <= peak <= 28_000 <==> gain_for(peak) == VoiceGain::Unity,
{
}

/// Eight samples play in a millisecond.
pub proof fn law_ms_to_samples(ms: u64, res: usize)
    requires
        call_ensures(ms_to_samples, (ms,), res),
    ensures
        res == 8 * ms,
{
}

/// Sounds without samples are left out, and all others are kept, in their order.
pub proof fn law_audible_sounds_are_kept(v: Seq<Seq<i16>>, sound: Seq<i16>)
    ensures
        audible(Seq::empty()) == Seq::<Seq<i16>>::empty(),
        sound.len() > 0 ==> audible(v.push(sound)) == audible(v).push(sound),
        sound.len() == 0 ==> audible(v.push(sound)) == audible(v),
{
    reveal(Seq::filter);
    assert(v.push(sound).drop_last() =~= v);
}

/// A mixer begins silent, with the silence that its speech asks for, eight samples
/// for each millisecond, with every audible sound it was given from its start, and
/// with a wait for the office of 1200 to 6400 samples.
pub proof fn law_mixer_begins(
    enabled: bool,
    background: BackgroundProfile,
    speech: Speech,
    ambience: Seq<Seq<i16>>,
    breaths: Seq<Seq<i16>>,
    office_fx: Seq<Seq<i16>>,
    i: int,
)
    ensures
        ({
            let mixer = Mixer::fresh(enabled, background, speech, ambience, breaths, office_fx);
            &&& mixer.enabled == enabled
            &&& mixer.background == background
            &&& mixer.tone == speech.tone
            &&& mixer.layers.len() == 0
            &&& mixer.pending_silence == 8 * speech.initial_pause_ms
            &&& mixer.breath_after_done == speech.breath_after_done
            &&& mixer.breaths == audible(breaths)
            &&& mixer.office_fx == audible(office_fx)
            &&& mixer.ambience.len() == audible(ambience).len()
            &&& 0 <= i < mixer.ambience.len() ==> mixer.ambience[i] == (Looping {
                samples: audible(ambience)[i],
                cursor: 0,
            })
            &&& 1_200 <= mixer.samples_until_fx <= 6_400
            &&& rng::seed_of(speech.text) != 0 ==> {
                &&& mixer.samples_until_fx == rng::picked(rng::seed_of(speech.text), 1_200, 6_400)
                &&& mixer.state == rng::next_state(rng::seed_of(speech.text))
            }
        }),
{
}

/// What sounds in a frame is the voice as it is, and the next samples of every
/// sound, as many as the voice has. Afterwards every sound is that much further,
/// and those that have ended are gone. Nothing else changes.
pub proof fn law_frames_are_mixed(mixer: Mixer, voice: Seq<i16>, speaking: bool, i: int)
    ensures
        ({
            let mix = mixer.mixed(voice, speaking);
            let after = mixer.played(voice.len());
            let n = voice.len();
            &&& mix.voice == voice
            &&& mix.speaking == speaking
            &&& mix.ambience.len() == mixer.ambience.len()
            &&& mix.layers.len() == mixer.layers.len()
            &&& 0 <= i < mixer.ambience.len() ==> mix.ambience[i] == mixer.ambience[i].next(n)
                && after.ambience[i] == mixer.ambience[i].after(n)
            &&& 0 <= i < mixer.layers.len() ==> mix.layers[i] == (
                mixer.layers[i].kind,
                mixer.layers[i].next(n),
            )
            &&& 0 <= i < mixer.layers.len() && mixer.layers[i].cursor >= 0
                && mixer.layers[i].cursor + n < mixer.layers[i].samples.len()
                ==> after.layers.contains(mixer.layers[i].after(n))
            &&& 0 <= i < after.layers.len() ==> after.layers[i].cursor
                < after.layers[i].samples.len()
            &&& after.ambience.len() == mixer.ambience.len()
            &&& after.layers.len() <= mixer.layers.len()
            &&& after == (Mixer { ambience: after.ambience, layers: after.layers, ..mixer })
        }),
{
    let n = voice.len();
    let moved = mixer.layers.map_values(|layer: Passing| layer.after(n));
    let keep = |layer: Passing| !layer.done();
    moved.lemma_filter_len(keep);
    if 0 <= i < mixer.layers.len() {
        assert(moved[i] == mixer.layers[i].after(n));
        if !moved[i].done() {
            moved.lemma_filter_contains(keep, i);
        }
    }
    if 0 <= i < moved.filter(keep).len() {
        moved.lemma_filter_pred(keep, i);
    }
}

/// A breath that is to come is one of the breaths there are, from its start, and
/// the last of the sounds. Without breaths none comes.
pub proof fn law_breath_begins(mixer: Mixer)
    ensures
        mixer.breaths.len() == 0 ==> mixer.with_breath() == mixer,
        mixer.breaths.len() > 0 ==> {
            let after = mixer.with_breath();
            &&& after.layers.len() == mixer.layers.len() + 1
            &&& after.layers.drop_last() == mixer.layers
            &&& after.layers.last().kind == LayerKind::Breath
            &&& after.layers.last().cursor == 0
            &&& mixer.breaths.contains(after.layers.last().samples)
            &&& mixer.breaths.len() == 1 ==> after.state == mixer.state
            &&& mixer.breaths.len() > 1 ==> after.state == rng::next_state(mixer.state)
            &&& after == (Mixer { state: after.state, layers: after.layers, ..mixer })
        },
{
    if mixer.breaths.len() > 0 {
        let last = mixer.breaths.len() - 1;
        let pick = rng::picked(mixer.state, 0, last);
        rng::law_picks_go_by_what_is_drawn(mixer.state, 0, last);
        assert(mixer.breaths[pick] == mixer.with_breath().layers.last().samples);
        assert(mixer.with_breath().layers.drop_last() =~= mixer.layers);
    }
}

/// A sound of the office comes only when its wait is over, the agent does not
/// speak and fewer than two sounds play; then one comes, twenty times in a
/// hundred. Until then the wait is counted down by the length of the frame. The
/// next wait goes by the tone: it is longest where the matter is grave.
pub proof fn law_office_sounds_now_and_then(mixer: Mixer, speaking: bool, frame_len: int)
    ensures
        ({
            let after = mixer.with_fx(speaking, frame_len);
            let over = mixer.samples_until_fx <= frame_len;
            let comes = mixer.office_fx.len() > 0 && over && !speaking && mixer.layers.len() < 2
                && rng::comes_up(mixer.state, 20);
            &&& mixer.office_fx.len() == 0 ==> after == mixer
            &&& mixer.office_fx.len() > 0 && !over ==> after == (Mixer {
                samples_until_fx: mixer.samples_until_fx - frame_len,
                ..mixer
            })
            &&& comes ==> {
                &&& after.layers.len() == mixer.layers.len() + 1
                &&& after.layers.drop_last() == mixer.layers
                &&& after.layers.last().kind == LayerKind::OfficeFx
                &&& after.layers.last().cursor == 0
                &&& mixer.office_fx.contains(after.layers.last().samples)
            }
            &&& !comes ==> after.layers == mixer.layers
            &&& mixer.office_fx.len() > 0 && over ==> {
                let drawn = if speaking || mixer.layers.len() >= 2 {
                    mixer.state
                } else if comes && mixer.office_fx.len() > 1 {
                    rng::next_state(rng::next_state(mixer.state))
                } else {
                    rng::next_state(mixer.state)
                };
                &&& after.state == rng::next_state(drawn)
                &&& mixer.tone == ToneProfile::Support ==> after.samples_until_fx == rng::picked(
                    drawn,
                    12_000,
                    48_000,
                )
                &&& mixer.tone == ToneProfile::Sales ==> after.samples_until_fx == rng::picked(
                    drawn,
                    9_000,
                    36_000,
                )
                &&& mixer.tone == ToneProfile::Complaint ==> after.samples_until_fx == rng::picked(
                    drawn,
                    14_400,
                    57_600,
                )
                &&& mixer.tone == ToneProfile::Escalation ==> after.samples_until_fx
                    == rng::picked(drawn, 16_200, 64_800)
            }
            &&& after == (Mixer {
                state: after.state,
                layers: after.layers,
                samples_until_fx: after.samples_until_fx,
                ..mixer
            })
        }),
{
    let after = mixer.with_fx(speaking, frame_len);
    if mixer.office_fx.len() > 0 && mixer.samples_until_fx <= frame_len && !speaking
        && mixer.layers.len() < 2 && rng::comes_up(mixer.state, 20) {
        let state = rng::next_state(mixer.state);
        let last = mixer.office_fx.len() - 1;
        let pick = rng::picked(state, 0, last);
        rng::law_picks_go_by_what_is_drawn(state, 0, last);
        assert(mixer.office_fx[pick] == after.layers.last().samples);
        assert(after.layers.drop_last() =~= mixer.layers);
    }
}

/// The silence to come is played in frames of 160 samples, and the last of what is
/// left; in each of them nothing but silence stands for the voice, and the agent
/// does not speak.
pub proof fn law_silence_is_silent(mixer: Mixer, i: int)
    requires
        mixer.pending_silence >= 0,
        0 <= i < mixer.pause().0.len(),
    ensures
        ({
            let frame = mixer.pause().0[i];
            &&& !frame.speaking
            &&& frame.voice == silence(frame.voice.len())
            &&& 160 * i < mixer.pending_silence
            &&& frame.voice.len() == if mixer.pending_silence - 160 * i >= 160 {
                160
            } else {
                (mixer.pending_silence - 160 * i) as nat
            }
        }),
    decreases mixer.pending_silence,
{
    if mixer.pending_silence > 0 {
        let next = mixer.after_silence();
        let first = mixer.mixed(silence(mixer.silence_len()), false);
        let all = seq![first] + next.pause().0;
        if i > 0 {
            assert(all[i] == next.pause().0[i - 1]);
            if mixer.pending_silence < 160 {
                assert(next.pause().0.len() == 0);
            }
            law_silence_is_silent(next, i - 1);
        } else {
            assert(all[0] == first);
        }
    }
}

/// A frame of voice sounds as it is, and counts as speech by its loudness alone;
/// the silence to come, the breath and what the mixer was made with stay as they
/// are.
pub proof fn law_voice_sounds(mixer: Mixer, voice: Seq<i16>)
    ensures
        mixer.voiced(voice).voice == voice,
        mixer.voiced(voice).speaking == (voice.len() > 0 && loudness(voice) >= 221 * voice.len()),
        mixer.after_voice(voice).pending_silence == mixer.pending_silence,
        mixer.after_voice(voice).breath_after_done == mixer.breath_after_done,
        mixer.after_voice(voice).tone == mixer.tone,
        mixer.after_voice(voice).enabled == mixer.enabled,
        mixer.after_voice(voice).breaths == mixer.breaths,
        mixer.after_voice(voice).office_fx == mixer.office_fx,
{
    if voice.len() > 0 {
        let n = voice.len() as int;
        let all = loudness(voice);
        law_loudness_adds_up(voice, Seq::empty(), 0);
        assert(all / n > 220 <==> all >= 221 * n) by (nonlinear_arith)
            requires
                n > 0,
                all >= 0,
        ;
    }
}

/// Voice is cut every 160 samples, from the front; the last frame is what is left,
/// and none is empty.
pub proof fn law_voice_is_cut(samples: Seq<i16>, k: int)
    requires
        0 <= k < voice_chunks(samples).len(),
    ensures
        160 * k < samples.len(),
        160 * voice_chunks(samples).len() < samples.len() + 160,
        voice_chunks(samples)[k] == if 160 * k + 160 <= samples.len() {
            samples.subrange(160 * k, 160 * k + 160)
        } else {
            samples.skip(160 * k)
        },
{
    if 160 * k + 160 > samples.len() {
        assert(samples.skip(160 * k) =~= samples.subrange(160 * k, samples.len() as int));
    }
}

/// A chunk that comes after an interruption is dropped, and the mixer forgets what
/// was to sound. Any other chunk is mixed, unless the voice is not to be shaped:
/// then it is played as it is. Neither changes the mixer.
pub proof fn law_begin_chunk(mixer: &mut AudioHumanizer, interrupted: bool, res: ChunkTreatment)
    requires
        call_ensures(AudioHumanizer::begin_chunk, (mixer, interrupted), res),
    ensures
        interrupted ==> {
            &&& res == ChunkTreatment::Dropped
            &&& final(mixer)@.layers.len() == 0
            &&& final(mixer)@.pending_silence == 0
            &&& !final(mixer)@.breath_after_done
            &&& final(mixer)@ == (Mixer {
                layers: Seq::empty(),
                pending_silence: 0,
                breath_after_done: false,
                ..old(mixer)@
            })
        },
        !interrupted ==> final(mixer)@ == old(mixer)@,
        !interrupted && old(mixer)@.enabled ==> res == ChunkTreatment::Mixed,
        !interrupted && !old(mixer)@.enabled ==> res == ChunkTreatment::Unchanged,
{
}

/// Once the voice is done, the sounds that still play are played on without it, in
/// frames of 160 samples: until none is left, or until more than 7200 samples have
/// been played.
pub proof fn law_sounds_play_on(mixer: Mixer, played: int)
    ensures
        mixer.layers.len() == 0 || played > 7_200 ==> mixer.tail(played) == (
            Seq::<Mix>::empty(),
            mixer,
        ),
        mixer.layers.len() > 0 && played <= 7_200 ==> {
            let (frames, after) = mixer.tail(played);
            &&& frames.len() > 0
            &&& frames[0] == mixer.mixed(silence(160), false)
            &&& frames.drop_first() == mixer.played(160).tail(played + 160).0
            &&& after == mixer.played(160).tail(played + 160).1
        },
{
    if mixer.layers.len() > 0 && played <= 7_200 {
        let (rest, after) = mixer.played(160).tail(played + 160);
        let first = mixer.mixed(silence(160), false);
        assert((seq![first] + rest).drop_first() =~= rest);
    }
}

/// At its end a voice that is shaped goes out with the sounds that still play, and
/// with a breath where one is to follow; a voice that is not shaped just ends.
pub proof fn law_finish(mixer: &mut AudioHumanizer, res: Vec<MixFrame>)
    requires
        call_ensures(AudioHumanizer::finish, (mixer,), res),
    ensures
        !old(mixer)@.enabled ==> res@.len() == 0 && final(mixer)@ == old(mixer)@,
        old(mixer)@.enabled && old(mixer)@.layers.len() == 0 && (!old(mixer)@.breath_after_done
            || old(mixer)@.breaths.len() == 0) ==> res@.len() == 0,
        old(mixer)@.enabled && (old(mixer)@.layers.len() > 0 || old(mixer)@.breath_after_done
            && old(mixer)@.breaths.len() > 0) ==> res@.len() > 0,
{
    assert(mixes(res@).len() == res@.len());
}

/// A frame of voice is heard as it is, and counts as speech by its loudness.
pub proof fn law_voice_frame(mixer: &mut AudioHumanizer, voice: &[i16], res: MixFrame)
    requires
        call_ensures(AudioHumanizer::voice_frame, (mixer, voice), res),
    ensures
        res@.voice == voice@,
        res@.speaking <==> voice@.len() > 0 && loudness(voice@) >= 221 * voice@.len(),
        final(mixer)@.pending_silence == old(mixer)@.pending_silence,
        res@.ambience.len() == old(mixer)@.ambience.len(),
{
    law_voice_sounds(old(mixer)@, voice@);
}

/// A chunk is heard whole: first the silence to come, then each of its frames in
/// order; no silence is left then.
pub proof fn law_chunk_frames(
    mixer: &mut AudioHumanizer,
    voice: &[Vec<i16>],
    res: Vec<MixFrame>,
    i: int,
)
    requires
        call_ensures(AudioHumanizer::chunk_frames, (mixer, voice), res),
        old(mixer)@.pending_silence >= 0,
    ensures
        final(mixer)@.pending_silence == 0,
        res@.len() >= voice@.len(),
        0 <= i < voice@.len() ==> res@[res@.len() - voice@.len() + i]@.voice == voice@[i]@,
{
    let all = sounds(voice@);
    law_chunk_keeps_voice(old(mixer)@, all);
    assert(mixes(res@).len() == res@.len());
    assert(all.len() == voice@.len());
    if 0 <= i < voice@.len() {
        let k = res@.len() - voice@.len() + i;
        let silent = old(mixer)@.pause().0.len();
        assert(k == silent + i);
        assert(mixes(res@)[k] == res@[k]@);
        assert(old(mixer)@.chunk(all).0[silent + i].voice == all[i]);
        assert(all[i] == voice@[i]@);
    }
}

/// A voice is shaped by its loudest sample: above 28000 it is made quieter, below
/// 5000 louder, and in between it stays.
pub proof fn law_voice_gain(frame: &[i16], res: VoiceGain, k: int)
    requires
        call_ensures(voice_gain, (frame,), res),
        0 <= k < frame@.len(),
    ensures
        frame@[k] > 28_000 || frame@[k] < -28_000 ==> res is Attenuate,
        frame@[k] >= 5_000 || frame@[k] <= -5_000 ==> !(res is Boost),
        (forall|i: int| 0 <= i < frame@.len() ==> -28_000 <= #[trigger] frame@[i] <= 28_000)
            ==> !(res is Attenuate),
        frame@[k] != 0 && (forall|i: int|
            0 <= i < frame@.len() ==> -5_000 < #[trigger] frame@[i] < 5_000) ==> res is Boost,
{
    law_peak_is_the_loudest(frame@, k);
}

/// Speech is heard frame by frame: first frames and then more sound as all of them
/// do, and in each frame a sound of the office may begin, which is heard in that
/// frame already.
pub proof fn law_speech_goes_frame_by_frame(
    mixer: Mixer,
    voice: Seq<Seq<i16>>,
    more: Seq<Seq<i16>>,
    frame: Seq<i16>,
)
    ensures
        ({
            let speaking = frame.len() > 0 && loudness(frame) >= 221 * frame.len();
            let ready = mixer.with_fx(speaking, frame.len() as int);
            &&& mixer.speech(Seq::empty()) == (Seq::<Mix>::empty(), mixer)
            &&& mixer.speech(seq![frame]) == (
                seq![ready.mixed(frame, speaking)],
                ready.played(frame.len()),
            )
            &&& mixer.speech(voice + more).0 == mixer.speech(voice).0 + mixer.speech(
                voice,
            ).1.speech(more).0
            &&& mixer.speech(voice + more).1 == mixer.speech(voice).1.speech(more).1
        }),
    decreases more.len(),
{
    law_voice_sounds(mixer, frame);
    reveal_with_fuel(Mixer::speech, 2);
    assert(seq![frame].drop_last() =~= Seq::<Seq<i16>>::empty());
    let speaking = frame.len() > 0 && loudness(frame) >= 221 * frame.len();
    assert(speaks(frame) == speaking);
    assert(mixer.speech(seq![frame]).0 =~= seq![mixer.voiced(frame)]);
    if more.len() == 0 {
        assert(voice + more =~= voice);
        assert(mixer.speech(voice).0 + Seq::<Mix>::empty() =~= mixer.speech(voice).0);
    } else {
        let shorter = more.drop_last();
        law_speech_goes_frame_by_frame(mixer, voice, shorter, frame);
        assert((voice + more).drop_last() =~= voice + shorter);
        assert((voice + more).last() == more.last());
        assert(mixer.speech(voice + more).0 =~= mixer.speech(voice).0 + mixer.speech(
            voice,
        ).1.speech(more).0);
    }
}

/// The silence to come is played out first, and the speech follows it at once: in
/// each frame of the silence the sounds go on.
pub proof fn law_silence_comes_first(mixer: Mixer, voice: Seq<Seq<i16>>)
    requires
        mixer.pending_silence >= 0,
    ensures
        mixer.pending_silence == 0 ==> mixer.chunk(voice) == mixer.speech(voice),
        mixer.pending_silence > 0 ==> {
            let n = if mixer.pending_silence < 160 {
                mixer.pending_silence as nat
            } else {
                160
            };
            let later = Mixer {
                pending_silence: mixer.pending_silence - n,
                ..mixer.played(n)
            };
            &&& mixer.chunk(voice).0.len() > 0
            &&& mixer.chunk(voice).0[0] == mixer.mixed(silence(n), false)
            &&& mixer.chunk(voice).0.drop_first() == later.chunk(voice).0
            &&& mixer.chunk(voice).1 == later.chunk(voice).1
        },
{
    if mixer.pending_silence == 0 {
        assert(mixer.chunk(voice).0 =~= mixer.speech(voice).0);
    } else {
        let later = mixer.after_silence();
        let first = mixer.mixed(silence(mixer.silence_len()), false);
        let (silent, after) = later.pause();
        assert(mixer.chunk(voice).0 =~= seq![first] + later.chunk(voice).0);
        assert((seq![first] + later.chunk(voice).0).drop_first() =~= later.chunk(voice).0);
    }
}

} // verus!
