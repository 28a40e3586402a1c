//! Sound files: the samples of the first channel of 16-bit PCM in WAV files.

use crate::audio;
use vstd::prelude::*;

verus! {

/// A chunk of a WAV file: its four-letter name, and where its contents stand.
pub ghost struct Chunk {
    pub name: Seq<u8>,
    pub start: int,
    pub len: int,
}

pub open spec fn le_u16(bytes: Seq<u8>, at: int) -> int {
    bytes[at] as int + 256 * bytes[at + 1]
}

pub open spec fn le_u32(bytes: Seq<u8>, at: int) -> int {
    bytes[at] as int + 256 * bytes[at + 1] + 65536 * bytes[at + 2] + 16777216 * bytes[at + 3]
}

/// "RIFF" at the start, "WAVE" behind the size, and room for a header.
pub open spec fn has_wav_header(bytes: Seq<u8>) -> bool {
    &&& bytes.len() >= 44
    &&& bytes.subrange(0, 4) == seq![0x52u8, 0x49u8, 0x46u8, 0x46u8]
    &&& bytes.subrange(8, 12) == seq![0x57u8, 0x41u8, 0x56u8, 0x45u8]
}

/// The chunk whose header stands at `at`.
pub open spec fn chunk_at(bytes: Seq<u8>, at: int) -> Chunk {
    Chunk { name: bytes.subrange(at, at + 4), start: at + 8, len: le_u32(bytes, at + 4) }
}

/// The chunks from `at` on, up to one that does not fit: each starts at an even
/// distance behind the one before.
pub open spec fn chunks(bytes: Seq<u8>, at: int) -> Seq<Chunk>
    decreases bytes.len() + 1 - at,
{
    if at < 0 || at + 8 > bytes.len() {
        Seq::empty()
    } else {
        let chunk = chunk_at(bytes, at);
        if chunk.start + chunk.len > bytes.len() || chunk.len < 0 {
            Seq::empty()
        } else {
            seq![chunk] + chunks(bytes, chunk.start + chunk.len + chunk.len % 2)
        }
    }
}

/// A chunk that tells the format: "fmt " with at least 16 bytes.
pub open spec fn is_format(chunk: Chunk) -> bool {
    chunk.name == seq![0x66u8, 0x6du8, 0x74u8, 0x20u8] && chunk.len >= 16
}

/// A chunk that holds samples: "data".
pub open spec fn is_data(chunk: Chunk) -> bool {
    chunk.name == seq![0x64u8, 0x61u8, 0x74u8, 0x61u8]
}

/// The last chunk of a kind.
pub open spec fn last_chunk(list: Seq<Chunk>, kind: spec_fn(Chunk) -> bool) -> Option<Chunk>
    decreases list.len(),
{
    if list.len() == 0 {
        None
    } else if kind(list.last()) {
        Some(list.last())
    } else {
        last_chunk(list.drop_last(), kind)
    }
}

pub open spec fn format_kind() -> spec_fn(Chunk) -> bool {
    |chunk: Chunk| is_format(chunk)
}

pub open spec fn data_kind() -> spec_fn(Chunk) -> bool {
    |chunk: Chunk| is_data(chunk)
}

/// Every chunk that tells the format tells PCM.
pub open spec fn all_pcm(bytes: Seq<u8>, list: Seq<Chunk>) -> bool {
    forall|i: int|
        0 <= i < list.len() && is_format(#[trigger] list[i]) ==> le_u16(bytes, list[i].start) == 1
}

/// The first channel of interleaved 16-bit samples.
pub open spec fn first_channel(data: Seq<u8>, channels: int) -> Seq<i16> {
    Seq::new(
        (data.len() as int / (2 * channels)) as nat,
        |i: int|
            audio::le_sample(data[2 * channels * i], data[2 * channels * i + 1]) as i16,
    )
}

/// Sound as a WAV file holds it.
pub struct WavAudio {
    pub sample_rate: u32,
    /// The samples of the first channel.
    pub samples: Vec<i16>,
}

/// The sample rate and the first channel of a WAV file: PCM with 16 bits and at
/// least one channel, by the last format chunk and the last data chunk.
pub open spec fn wav_audio(bytes: Seq<u8>) -> Option<(int, Seq<i16>)> {
    let list = chunks(bytes, 12);
    if !has_wav_header(bytes) || !all_pcm(bytes, list) {
        None
    } else {
        match (last_chunk(list, format_kind()), last_chunk(list, data_kind())) {
            (Some(format), Some(data)) => {
                let channels = le_u16(bytes, format.start + 2);
                if le_u16(bytes, format.start + 14) != 16 || channels == 0 {
                    None
                } else {
                    Some(
                        (
                            le_u32(bytes, format.start + 4),
                            first_channel(
                                bytes.subrange(data.start, data.start + data.len),
                                channels,
                            ),
                        ),
                    )
                }
            },
            _ => None,
        }
    }
}

fn read_u16(bytes: &[u8], at: usize) -> (res: u16)
    requires
        at + 2 <= bytes@.len(),
    ensures
        res == le_u16(bytes@, at as int),
{
    bytes[at] as u16 + 256 * bytes[at + 1] as u16
}

fn read_u32(bytes: &[u8], at: usize) -> (res: u32)
    requires
        at + 4 <= bytes@.len(),
    ensures
        res == le_u32(bytes@, at as int),
{
    bytes[at] as u32 + 256 * bytes[at + 1] as u32 + 65536 * bytes[at + 2] as u32 + 16777216
        * bytes[at + 3] as u32
}

/// Whether four bytes stand at `at`.
fn four_at(bytes: &[u8], at: usize, a: u8, b: u8, c: u8, d: u8) -> (res: bool)
    requires
        at + 4 <= bytes@.len(),
    ensures
        res == (bytes@.subrange(at as int, at + 4) == seq![a, b, c, d]),
{
    let same = bytes[at] == a && bytes[at + 1] == b && bytes[at + 2] == c && bytes[at + 3] == d;
    proof {
        let part = bytes@.subrange(at as int, at + 4);
        let wanted = seq![a, b, c, d];
        if same {
            assert(part =~= wanted);
        } else {
            assert(part[0] == bytes@[at as int] && part[1] == bytes@[at + 1] && part[2]
                == bytes@[at + 2] && part[3] == bytes@[at + 3]);
            assert(wanted[0] == a && wanted[1] == b && wanted[2] == c && wanted[3] == d);
        }
    }
    same
}

proof fn lemma_last_chunk_push(list: Seq<Chunk>, chunk: Chunk, kind: spec_fn(Chunk) -> bool)
    ensures
        last_chunk(list.push(chunk), kind) == if kind(chunk) {
            Some(chunk)
        } else {
            last_chunk(list, kind)
        },
{
    assert(list.push(chunk).drop_last() =~= list);
}

/// The sample rate and the first channel of a WAV file.
pub fn parse_wav_i16(bytes: &[u8]) -> (res: Option<WavAudio>)
    ensures
        res is Some <==> wav_audio(bytes@) is Some,
        res matches Some(wav) ==> wav_audio(bytes@) == Some((wav.sample_rate as int, wav.samples@)),
{
    let total: usize = bytes.len();
    if total < 44 || !four_at(bytes, 0, 0x52, 0x49, 0x46, 0x46) || !four_at(
        bytes,
        8,
        0x57,
        0x41,
        0x56,
        0x45,
    ) {
        return None;
    }
    let mut offset: usize = 12;
    let mut format: Option<usize> = None;
    let mut data: Option<(usize, usize)> = None;
    let ghost mut seen: Seq<Chunk> = Seq::empty();
    let ghost list = chunks(bytes@, 12);
    assert(seen + chunks(bytes@, 12) =~= list);
    while offset <= total && total - offset >= 8
        invariant_except_break
            offset <= total,
            list == seen + chunks(bytes@, offset as int),
        invariant
            total == bytes@.len(),
            has_wav_header(bytes@),
            list == chunks(bytes@, 12),
            all_pcm(bytes@, seen),
            match format {
                Some(at) => at + 16 <= total && (last_chunk(seen, format_kind()) matches Some(c)
                    && c.start == at),
                None => last_chunk(seen, format_kind()) is None,
            },
            match data {
                Some(part) => part.0 <= part.1 <= total && (last_chunk(seen, data_kind()) matches Some(
                    c,
                ) && c.start == part.0 && c.start + c.len == part.1),
                None => last_chunk(seen, data_kind()) is None,
            },
        ensures
            list == seen,
        decreases total - offset,
    {
        let ghost at = offset as int;
        let ghost chunk = chunk_at(bytes@, at);
        let len: u32 = read_u32(bytes, offset + 4);
        let is_fmt = four_at(bytes, offset, 0x66, 0x6d, 0x74, 0x20);
        let is_samples = four_at(bytes, offset, 0x64, 0x61, 0x74, 0x61);
        let start: usize = offset + 8;
        if len as u64 > (total - start) as u64 {
            assert(list =~= seen);
            break;
        }
        let len: usize = len as usize;
        let ghost rest = chunks(bytes@, chunk.start + chunk.len + chunk.len % 2);
        proof {
            assert(list =~= seen.push(chunk) + rest);
            lemma_last_chunk_push(seen, chunk, format_kind());
            lemma_last_chunk_push(seen, chunk, data_kind());
            assert(seq![0x66u8, 0x6du8, 0x74u8, 0x20u8][0] == 0x66u8);
            assert(seq![0x64u8, 0x61u8, 0x74u8, 0x61u8][0] == 0x64u8);
        }
        if is_fmt && len >= 16 {
            if read_u16(bytes, start) != 1 {
                assert(list[seen.len() as int] == chunk);
                return None;
            }
            format = Some(start);
        } else if is_samples {
            data = Some((start, start + len));
        }
        proof {
            assert forall|i: int|
                0 <= i < seen.push(chunk).len() && is_format(
                    #[trigger] seen.push(chunk)[i],
                ) implies le_u16(bytes@, seen.push(chunk)[i].start) == 1 by {
                if i < seen.len() {
                    assert(seen.push(chunk)[i] == seen[i]);
                }
            }
            seen = seen.push(chunk);
        }
        if len % 2 == 1 && start + len == total {
            assert(rest =~= Seq::empty());
            assert(list =~= seen);
            break;
        }
        offset = start + len + len % 2;
        assert(chunks(bytes@, offset as int) == rest);
        if total - offset < 8 {
            assert(rest =~= Seq::empty());
            assert(list =~= seen);
        }
    }
    let format: usize = match format {
        Some(at) => at,
        None => return None,
    };
    let (from, to) = match data {
        Some(part) => part,
        None => return None,
    };
    let channels: u16 = read_u16(bytes, format + 2);
    if read_u16(bytes, format + 14) != 16 || channels == 0 {
        return None;
    }
    let sample_rate: u32 = read_u32(bytes, format + 4);
    let data = vstd::slice::slice_subrange(bytes, from, to);
    let samples = take_first_channel(data, channels);
    Some(WavAudio { sample_rate, samples })
}

/// The first channel of interleaved 16-bit samples.
fn take_first_channel(data: &[u8], channels: u16) -> (res: Vec<i16>)
    requires
        channels > 0,
    ensures
        res@ == first_channel(data@, channels as int),
{
    let width: usize = 2 * channels as usize;
    let total: usize = data.len();
    let n: usize = total / width;
    let mut res: Vec<i16> = Vec::new();
    for i in 0..n
        invariant
            width == 2 * channels,
            width >= 2,
            total == data@.len(),
            n == total as int / width as int,
            res@ == first_channel(data@, channels as int).take(i as int),
    {
        proof {
            assert(width * i + width <= total) by (nonlinear_arith)
                requires
                    i + 1 <= total as int / width as int,
                    width >= 2,
            ;
            assert(width * i == 2 * channels * i) by (nonlinear_arith)
                requires
                    width == 2 * channels,
            ;
        }
        let at: usize = width * i;
        res.push(audio::sample_from_le(data[at], data[at + 1]));
        assert(res@ =~= first_channel(data@, channels as int).take(i + 1));
    }
    assert(first_channel(data@, channels as int).take(n as int) =~= first_channel(
        data@,
        channels as int,
    ));
    res
}

/// How many samples sound of `len` samples has after its rate is changed: in
/// proportion, but at least one; none where there was nothing to change.
pub open spec fn resampled_len(len: int, source_rate: int, target_rate: int) -> int {
    if len == 0 || source_rate == 0 {
        0
    } else if len * target_rate / source_rate < 1 {
        1
    } else {
        len * target_rate / source_rate
    }
}

/// How many samples sound of `len` samples has after its rate is changed.
pub fn resample_len(len: usize, source_rate: u32, target_rate: u32) -> (res: usize)
    requires
        len * target_rate <= usize::MAX,
    ensures
        res == resampled_len(len as int, source_rate as int, target_rate as int),
{
    if len == 0 || source_rate == 0 {
        return 0;
    }
    assert(0 <= len * target_rate) by (nonlinear_arith);
    let n: usize = len * target_rate as usize / source_rate as usize;
    if n < 1 {
        1
    } else {
        n
    }
}

// ---------------------------------------------------------------------------
// Laws
// ---------------------------------------------------------------------------

/// The number that four bytes make, the lowest first.
pub open spec fn four_bytes(bytes: Seq<u8>, at: int) -> int {
    bytes[at] + 0x100 * bytes[at + 1] + 0x1_0000 * bytes[at + 2] + 0x100_0000 * bytes[at + 3]
}

/// Four letters stand at `at`.
pub open spec fn spells(bytes: Seq<u8>, at: int, a: char, b: char, c: char, d: char) -> bool {
    bytes[at] == a as u8 && bytes[at + 1] == b as u8 && bytes[at + 2] == c as u8 && bytes[at + 3]
        == d as u8
}

/// A file begins with `RIFF`, its size, `WAVE` and a format of sixteen bytes that
/// is that of plain samples.
pub open spec fn begins_like_a_file(bytes: Seq<u8>) -> bool {
    &&& bytes.len() >= 44
    &&& spells(bytes, 0, 'R', 'I', 'F', 'F')
    &&& spells(bytes, 8, 'W', 'A', 'V', 'E')
    &&& spells(bytes, 12, 'f', 'm', 't', ' ')
    &&& four_bytes(bytes, 16) == 16
    &&& bytes[20] == 1 && bytes[21] == 0
}

/// The samples stand at `at`, to the end of the file: behind the format, or behind
/// one more chunk of any other name, whose length is made even.
pub open spec fn ends_with_samples(bytes: Seq<u8>, at: int) -> bool {
    &&& at == 36 || {
        &&& !spells(bytes, 36, 'f', 'm', 't', ' ')
        &&& !spells(bytes, 36, 'd', 'a', 't', 'a')
        &&& at == 44 + four_bytes(bytes, 40) + four_bytes(bytes, 40) % 2
    }
    &&& at + 8 <= bytes.len()
    &&& spells(bytes, at, 'd', 'a', 't', 'a')
    &&& bytes.len() == at + 8 + four_bytes(bytes, at + 4)
}

proof fn lemma_names(bytes: Seq<u8>, at: int)
    requires
        0 <= at,
        at + 4 <= bytes.len(),
    ensures
        bytes.subrange(at, at + 4) == seq![0x66u8, 0x6du8, 0x74u8, 0x20u8] <==> spells(
            bytes,
            at,
            'f',
            'm',
            't',
            ' ',
        ),
        bytes.subrange(at, at + 4) == seq![0x64u8, 0x61u8, 0x74u8, 0x61u8] <==> spells(
            bytes,
            at,
            'd',
            'a',
            't',
            'a',
        ),
        bytes.subrange(at, at + 4) == seq![0x52u8, 0x49u8, 0x46u8, 0x46u8] <==> spells(
            bytes,
            at,
            'R',
            'I',
            'F',
            'F',
        ),
        bytes.subrange(at, at + 4) == seq![0x57u8, 0x41u8, 0x56u8, 0x45u8] <==> spells(
            bytes,
            at,
            'W',
            'A',
            'V',
            'E',
        ),
{
    let part = bytes.subrange(at, at + 4);
    assert(part[0] == bytes[at] && part[1] == bytes[at + 1] && part[2] == bytes[at + 2] && part[3]
        == bytes[at + 3]);
    let format = seq![0x66u8, 0x6du8, 0x74u8, 0x20u8];
    let data = seq![0x64u8, 0x61u8, 0x74u8, 0x61u8];
    let riff = seq![0x52u8, 0x49u8, 0x46u8, 0x46u8];
    let wave = seq![0x57u8, 0x41u8, 0x56u8, 0x45u8];
    if spells(bytes, at, 'f', 'm', 't', ' ') {
        assert(part =~= format);
    }
    if spells(bytes, at, 'd', 'a', 't', 'a') {
        assert(part =~= data);
    }
    if spells(bytes, at, 'R', 'I', 'F', 'F') {
        assert(part =~= riff);
    }
    if spells(bytes, at, 'W', 'A', 'V', 'E') {
        assert(part =~= wave);
    }
    assert(format[0] == 0x66u8 && format[1] == 0x6du8 && format[2] == 0x74u8 && format[3] == 0x20u8);
    assert(data[0] == 0x64u8 && data[1] == 0x61u8 && data[2] == 0x74u8 && data[3] == 0x61u8);
    assert(riff[0] == 0x52u8 && riff[1] == 0x49u8 && riff[2] == 0x46u8 && riff[3] == 0x46u8);
    assert(wave[0] == 0x57u8 && wave[1] == 0x41u8 && wave[2] == 0x56u8 && wave[3] == 0x45u8);
}

/// A file of plain samples of sixteen bits is read: its rate as it stands, and of
/// each frame the sample of the first channel, low byte first, from where its
/// samples begin. A chunk of another name before the samples is passed over.
pub proof fn law_sound_files_are_read(bytes: Seq<u8>, at: int, i: int)
    requires
        begins_like_a_file(bytes),
        ends_with_samples(bytes, at),
        bytes[34] == 16 && bytes[35] == 0,
        bytes[22] > 0 || bytes[23] > 0,
    ensures
        ({
            let channels = bytes[22] + 256 * bytes[23];
            let count = (bytes.len() - at - 8) / (2 * channels);
            &&& wav_audio(bytes) matches Some(sound) && {
                &&& sound.0 == four_bytes(bytes, 24)
                &&& sound.1.len() == count
                &&& 0 <= i < count ==> {
                    let low = bytes[at + 8 + 2 * channels * i];
                    let high = bytes[at + 9 + 2 * channels * i];
                    sound.1[i] == if high < 128 {
                        low + 256 * high
                    } else {
                        low + 256 * high - 65536
                    }
                }
            }
        }),
{
    lemma_names(bytes, 0);
    lemma_names(bytes, 8);
    lemma_names(bytes, 12);
    lemma_names(bytes, 36);
    lemma_names(bytes, at);
    let list = chunks(bytes, 12);
    let format = chunk_at(bytes, 12);
    let data = chunk_at(bytes, at);
    lemma_chunks_of_file(bytes, at);
    assert(is_format(format) && !is_data(format));
    assert(is_data(data) && !is_format(data));
    reveal_with_fuel(last_chunk, 4);
    if at == 36 {
        assert(list =~= seq![format, data]);
        assert(list.drop_last() =~= seq![format]);
        assert(seq![format].drop_last() =~= Seq::<Chunk>::empty());
    } else {
        let other = chunk_at(bytes, 36);
        assert(!is_format(other) && !is_data(other));
        assert(list =~= seq![format, other, data]);
        assert(list.drop_last() =~= seq![format, other]);
        assert(seq![format, other].drop_last() =~= seq![format]);
        assert(seq![format].drop_last() =~= Seq::<Chunk>::empty());
    }
    let channels = bytes[22] + 256 * bytes[23];
    let part = bytes.subrange(data.start, data.start + data.len);
    let count = (bytes.len() - at - 8) / (2 * channels);
    if 0 <= i < count {
        assert(2 * channels * i + 2 * channels <= part.len()) by (nonlinear_arith)
            requires
                0 <= i < count,
                count == part.len() as int / (2 * channels),
                channels > 0,
        ;
        assert(2 * channels * i >= 0) by (nonlinear_arith)
            requires
                i >= 0,
                channels > 0,
        ;
        assert(part[2 * channels * i] == bytes[at + 8 + 2 * channels * i]);
        assert(part[2 * channels * i + 1] == bytes[at + 9 + 2 * channels * i]);
    }
}

proof fn lemma_chunks_of_file(bytes: Seq<u8>, at: int)
    requires
        begins_like_a_file(bytes),
        ends_with_samples(bytes, at),
    ensures
        chunks(bytes, 12) == if at == 36 {
            seq![chunk_at(bytes, 12), chunk_at(bytes, at)]
        } else {
            seq![chunk_at(bytes, 12), chunk_at(bytes, 36), chunk_at(bytes, at)]
        },
{
    let end = bytes.len() as int;
    let data = chunk_at(bytes, at);
    assert(data.start + data.len == end);
    assert(chunks(bytes, end + data.len % 2) =~= Seq::<Chunk>::empty());
    assert(chunks(bytes, at) =~= seq![data]);
    assert(chunks(bytes, 12) =~= seq![chunk_at(bytes, 12)] + chunks(bytes, 36));
    if at != 36 {
        assert(chunks(bytes, 36) =~= seq![chunk_at(bytes, 36)] + chunks(bytes, at));
    }
}

/// A file is not read where it does not begin with `RIFF` and `WAVE`, is too
/// short, or where its format is not that of plain samples, not of sixteen bits or
/// of no channel.
pub proof fn law_other_files_are_refused(bytes: Seq<u8>, at: int)
    ensures
        bytes.len() < 44 ==> wav_audio(bytes) is None,
        bytes.len() >= 44 && !spells(bytes, 0, 'R', 'I', 'F', 'F') ==> wav_audio(bytes) is None,
        bytes.len() >= 44 && !spells(bytes, 8, 'W', 'A', 'V', 'E') ==> wav_audio(bytes) is None,
        bytes.len() >= 44 && spells(bytes, 12, 'f', 'm', 't', ' ') && four_bytes(bytes, 16) == 16
            && !(bytes[20] == 1 && bytes[21] == 0) ==> wav_audio(bytes) is None,
        begins_like_a_file(bytes) && ends_with_samples(bytes, at) && !(bytes[34] == 16 && bytes[35]
            == 0) ==> wav_audio(bytes) is None,
        begins_like_a_file(bytes) && ends_with_samples(bytes, at) && bytes[22] == 0 && bytes[23]
            == 0 ==> wav_audio(bytes) is None,
{
    if bytes.len() >= 44 {
        lemma_names(bytes, 0);
        lemma_names(bytes, 8);
        lemma_names(bytes, 12);
        lemma_names(bytes, 36);
        if spells(bytes, 12, 'f', 'm', 't', ' ') && four_bytes(bytes, 16) == 16 {
            assert(chunks(bytes, 12)[0] == chunk_at(bytes, 12));
            assert(is_format(chunks(bytes, 12)[0]));
        }
        if begins_like_a_file(bytes) && ends_with_samples(bytes, at) {
            lemma_names(bytes, at);
            let list = chunks(bytes, 12);
            let format = chunk_at(bytes, 12);
            let data = chunk_at(bytes, at);
            lemma_chunks_of_file(bytes, at);
            reveal_with_fuel(last_chunk, 4);
            if at == 36 {
                assert(list.drop_last() =~= seq![format]);
                assert(seq![format].drop_last() =~= Seq::<Chunk>::empty());
            } else {
                let other = chunk_at(bytes, 36);
                assert(list.drop_last() =~= seq![format, other]);
                assert(seq![format, other].drop_last() =~= seq![format]);
                assert(seq![format].drop_last() =~= Seq::<Chunk>::empty());
            }
        }
    }
}

/// Of several formats, and of several chunks of samples, the last one counts.
pub proof fn law_last_chunk_counts(list: Seq<Chunk>, chunk: Chunk, kind: spec_fn(Chunk) -> bool)
    ensures
        last_chunk(Seq::empty(), kind) is None,
        kind(chunk) ==> last_chunk(list.push(chunk), kind) == Some(chunk),
        !kind(chunk) ==> last_chunk(list.push(chunk), kind) == last_chunk(list, kind),
{
    lemma_last_chunk_push(list, chunk, kind);
}

/// Sound whose rate is changed keeps its length in time, to less than a sample;
/// but something is left of anything that sounds. Without a rate there is nothing
/// to change.
pub proof fn law_resampled_sound_keeps_its_length(len: int, source_rate: int, target_rate: int)
    requires
        len >= 0,
        source_rate >= 0,
        target_rate >= 0,
    ensures
        ({
            let n = resampled_len(len, source_rate, target_rate);
            &&& len == 0 || source_rate == 0 ==> n == 0
            &&& len > 0 && source_rate > 0 ==> n >= 1
            &&& len > 0 && source_rate > 0 && len * target_rate >= source_rate ==> n * source_rate
                <= len * target_rate < (n + 1) * source_rate
            &&& len > 0 && source_rate > 0 && len * target_rate < source_rate ==> n == 1
        }),
{
    if len > 0 && source_rate > 0 {
        let all = len * target_rate;
        assert(all >= 0) by (nonlinear_arith)
            requires
                all == len * target_rate,
                len >= 0,
                target_rate >= 0,
        ;
        let n = all / source_rate;
        assert(n * source_rate <= all < (n + 1) * source_rate) by (nonlinear_arith)
            requires
                n == all / source_rate,
                source_rate > 0,
        ;
        assert(all >= source_rate ==> n >= 1) by (nonlinear_arith)
            requires
                n == all / source_rate,
                source_rate > 0,
        ;
        assert(all < source_rate ==> n < 1) by (nonlinear_arith)
            requires
                n == all / source_rate,
                source_rate > 0,
                all >= 0,
        ;
    }
}

/// A file of plain samples of sixteen bits is read with its rate and a sample for
/// each of its frames.
pub proof fn law_parse_wav_i16(bytes: &[u8], at: int, res: Option<WavAudio>)
    requires
        call_ensures(parse_wav_i16, (bytes,), res),
        begins_like_a_file(bytes@),
        ends_with_samples(bytes@, at),
        bytes@[34] == 16 && bytes@[35] == 0,
        bytes@[22] > 0 || bytes@[23] > 0,
    ensures
        res matches Some(sound) && {
            &&& sound.sample_rate == four_bytes(bytes@, 24)
            &&& sound.samples@.len() == (bytes@.len() - at - 8) / (2 * (bytes@[22] + 256
                * bytes@[23]))
        },
{
    law_sound_files_are_read(bytes@, at, 0);
}

} // verus!
