//! WAV playback up to the float conversion: decoding a WAV file's bytes,
//! which sample depths are played, how a sample is scaled, the stream
//! parameters, and the cursor over the samples.

use vstd::prelude::*;

verus! {

/// The sample depths that are played.
#[derive(Clone, Copy, PartialEq, Eq, Debug)]
pub enum SampleDepth {
    Bits8,
    Bits16,
    Bits24,
}

/// Why a WAV file is not played.
#[derive(Clone, Copy, PartialEq, Eq, Debug)]
pub enum WavError {
    /// The bytes are not a WAV file whose header can be read.
    Open,
    /// Samples of this many bits are not supported.
    UnsupportedBits(u16),
    /// A sample cannot be read.
    Read,
}

/// The depth of samples of the given size.
pub open spec fn depth_of(bits: u16) -> Result<SampleDepth, WavError> {
    if bits == 16 {
        Ok(SampleDepth::Bits16)
    } else if bits == 24 {
        Ok(SampleDepth::Bits24)
    } else if bits == 8 {
        Ok(SampleDepth::Bits8)
    } else {
        Err(WavError::UnsupportedBits(bits))
    }
}

/// The depth of samples of the given size: 8, 16 and 24 bits are played,
/// other sizes are refused.
pub fn sample_depth(bits_per_sample: u16) -> (r: Result<SampleDepth, WavError>)
    ensures
        r == depth_of(bits_per_sample),
{
    if bits_per_sample == 16 {
        Ok(SampleDepth::Bits16)
    } else if bits_per_sample == 24 {
        Ok(SampleDepth::Bits24)
    } else if bits_per_sample == 8 {
        Ok(SampleDepth::Bits8)
    } else {
        Err(WavError::UnsupportedBits(bits_per_sample))
    }
}

impl SampleDepth {
    /// The value that a sample is divided by to bring it into [-1, 1).
    pub open spec fn spec_full_scale(self) -> u32 {
        match self {
            SampleDepth::Bits8 => 128,
            SampleDepth::Bits16 => 32768,
            SampleDepth::Bits24 => 8388608,
        }
    }

    /// The value that a sample is divided by to bring it into [-1, 1).
    pub fn full_scale(self) -> (r: u32)
        ensures
            r == self.spec_full_scale(),
    {
        match self {
            SampleDepth::Bits8 => 128,
            SampleDepth::Bits16 => 32768,
            SampleDepth::Bits24 => 8388608,
        }
    }

    /// The sample value to divide by the full scale: 24-bit samples are
    /// shifted down by 8 bits first, the others are taken as they are.
    pub open spec fn spec_scaled_sample(self, raw: i32) -> i32 {
        if self == SampleDepth::Bits24 {
            (raw as int / 256) as i32
        } else {
            raw
        }
    }

    /// The sample value to divide by the full scale: 24-bit samples are
    /// shifted down by 8 bits first, the others are taken as they are. The
    /// decoder returns 24-bit samples sign-extended to 32 bits, not shifted,
    /// so after the shift they play at 1/256 of their level.
    pub fn scaled_sample(self, raw: i32) -> (r: i32)
        ensures
            r == self.spec_scaled_sample(raw),
            self == SampleDepth::Bits24 ==> r as int == raw as int / 256,
            self != SampleDepth::Bits24 ==> r == raw,
    {
        match self {
            SampleDepth::Bits24 => {
                let r: i32 = raw >> 8u32;
                assert(r == raw / 256) by (bit_vector)
                    requires
                        r == raw >> 8u32,
                ;
                r
            },
            _ => raw,
        }
    }
}

/// The sample rate to play at: the file's, or 44100 Hz when it says 0.
pub open spec fn rate_or_default(rate: u32) -> u32 {
    if rate != 0 {
        rate
    } else {
        44100
    }
}

/// The channel count to play with: the file's, or 1 when it says 0.
pub open spec fn channel_count_or_default(channels: u16) -> u16 {
    if channels != 0 {
        channels
    } else {
        1
    }
}

/// The sample rate to play at: the file's, or 44100 Hz when it says 0.
pub fn sample_rate_or_default(rate: u32) -> (r: u32)
    ensures
        r == rate_or_default(rate),
{
    if rate != 0 {
        rate
    } else {
        44100
    }
}

/// The channel count to play with: the file's, or 1 when it says 0.
pub fn channels_or_default(channels: u16) -> (r: u16)
    ensures
        r == channel_count_or_default(channels),
{
    if channels != 0 {
        channels
    } else {
        1
    }
}

/// What the bytes of a WAV file decode to: the sample size, sample rate and
/// channel count of its header, and its samples read as 32-bit integers, or
/// none when a sample cannot be read.
pub struct DecodedWav {
    pub bits_per_sample: u16,
    pub sample_rate: u32,
    pub channels: u16,
    pub samples: Option<Vec<i32>>,
}

impl View for DecodedWav {
    type V = (u16, u32, u16, Option<Seq<i32>>);

    open spec fn view(&self) -> (u16, u32, u16, Option<Seq<i32>>) {
        (
            self.bits_per_sample,
            self.sample_rate,
            self.channels,
            match self.samples {
                Some(v) => Some(v@),
                None => None,
            },
        )
    }
}

/// What hound's WAV reader makes of a file's bytes: none when the header
/// cannot be read, else the header's sample size, sample rate and channel
/// count, with the samples read as `i32` (none when one cannot be read).
pub uninterp spec fn wav_decoded(bytes: Seq<u8>) -> Option<(u16, u32, u16, Option<Seq<i32>>)>;

/// Decodes the bytes of a WAV file.
///
/// Trusted: calls `hound::WavReader::new` on the bytes, takes `spec()` and
/// collects `samples::<i32>()`; the contract claims only that the result is
/// `wav_decoded` of the bytes, a function of the bytes alone. Reading as
/// `i32` gives the value that reading as `i8` or `i16` gives for 8- and
/// 16-bit samples, and fails where those fail.
#[verifier::external_body]
fn decode_wav(bytes: &[u8]) -> (r: Option<DecodedWav>)
    ensures
        r matches Some(d) ==> wav_decoded(bytes@) == Some(d@),
        r is None ==> wav_decoded(bytes@) is None,
{
    let mut reader = hound::WavReader::new(std::io::Cursor::new(bytes)).ok()?;
    let spec = reader.spec();
    let samples = reader.samples::<i32>().collect::<Result<Vec<i32>, hound::Error>>().ok();
    Some(DecodedWav {
        bits_per_sample: spec.bits_per_sample,
        sample_rate: spec.sample_rate,
        channels: spec.channels,
        samples,
    })
}

/// A WAV file made ready to play: its depth, its samples scaled for that
/// depth (still to be divided by the depth's full scale), and the sample
/// rate and channel count to play at.
pub struct PcmStream {
    pub depth: SampleDepth,
    pub samples: Vec<i32>,
    pub sample_rate: u32,
    pub channels: u16,
}

impl View for PcmStream {
    type V = (SampleDepth, Seq<i32>, u32, u16);

    open spec fn view(&self) -> (SampleDepth, Seq<i32>, u32, u16) {
        (self.depth, self.samples@, self.sample_rate, self.channels)
    }
}

/// Samples scaled for a depth.
pub open spec fn scaled_samples(depth: SampleDepth, raw: Seq<i32>) -> Seq<i32> {
    raw.map_values(|v: i32| depth.spec_scaled_sample(v))
}

/// A decoded WAV file as it is played: the header must be readable, the
/// depth supported and every sample readable, in that order of checks.
pub open spec fn pcm_of(decoded: Option<(u16, u32, u16, Option<Seq<i32>>)>) -> Result<
    (SampleDepth, Seq<i32>, u32, u16),
    WavError,
> {
    match decoded {
        None => Err(WavError::Open),
        Some((bits, rate, channels, samples)) => match depth_of(bits) {
            Err(e) => Err(e),
            Ok(depth) => match samples {
                None => Err(WavError::Read),
                Some(raw) => Ok(
                    (
                        depth,
                        scaled_samples(depth, raw),
                        rate_or_default(rate),
                        channel_count_or_default(channels),
                    ),
                ),
            },
        },
    }
}

/// The view of what a decoder returned.
pub open spec fn decoded_view(d: Option<DecodedWav>) -> Option<(u16, u32, u16, Option<Seq<i32>>)> {
    match d {
        Some(w) => Some(w@),
        None => None,
    }
}

/// The view of a made-ready stream or of the error.
pub open spec fn pcm_view(r: Result<PcmStream, WavError>) -> Result<
    (SampleDepth, Seq<i32>, u32, u16),
    WavError,
> {
    match r {
        Ok(p) => Ok(p@),
        Err(e) => Err(e),
    }
}

/// Makes a decoded WAV file ready to play, or says why it is not played.
pub fn pcm_from_decoded(decoded: Option<DecodedWav>) -> (r: Result<PcmStream, WavError>)
    ensures
        pcm_view(r) == pcm_of(decoded_view(decoded)),
{
    let d: DecodedWav = match decoded {
        None => {
            return Err(WavError::Open);
        },
        Some(d) => d,
    };
    let depth: SampleDepth = match sample_depth(d.bits_per_sample) {
        Ok(depth) => depth,
        Err(e) => {
            return Err(e);
        },
    };
    let raw: Vec<i32> = match d.samples {
        None => {
            return Err(WavError::Read);
        },
        Some(raw) => raw,
    };
    let n: usize = raw.len();
    let mut samples: Vec<i32> = Vec::new();
    let mut i: usize = 0;
    while i < n
        invariant
            n == raw@.len(),
            i <= n,
            samples@ =~= scaled_samples(depth, raw@).take(i as int),
        decreases n - i,
    {
        samples.push(depth.scaled_sample(raw[i]));
        i = i + 1;
    }
    assert(samples@ =~= scaled_samples(depth, raw@));
    Ok(PcmStream {
        depth,
        samples,
        sample_rate: sample_rate_or_default(d.sample_rate),
        channels: channels_or_default(d.channels),
    })
}

/// How a decoded WAV file is played: with 8, 16 or 24 bits per sample and
/// every sample read, it plays at the header's sample rate and channel
/// count (44100 Hz and one channel where the header says 0), with each
/// sample as read, 24-bit ones divided by 256 (rounding down), over a full
/// scale of 2 to the power of one less than the bits; a header that cannot
/// be read, another sample size, or a sample that cannot be read, checked
/// in that order, is refused.
pub proof fn law_wav_playback(
    decoded: Option<(u16, u32, u16, Option<Seq<i32>>)>,
)
    ensures
        decoded is None ==> pcm_of(decoded) == Err::<(SampleDepth, Seq<i32>, u32, u16), WavError>(
            WavError::Open,
        ),
        decoded matches Some((bits, rate, channels, samples)) ==> {
            let supported = bits == 8 || bits == 16 || bits == 24;
            &&& !supported ==> pcm_of(decoded) == Err::<(SampleDepth, Seq<i32>, u32, u16), WavError>(
                WavError::UnsupportedBits(bits),
            )
            &&& supported && samples is None ==> pcm_of(decoded) == Err::<
                (SampleDepth, Seq<i32>, u32, u16),
                WavError,
            >(WavError::Read)
            &&& samples matches Some(raw) ==> (supported ==> (pcm_of(decoded) matches Ok(
                (depth, played, r, c),
            ) && r == (if rate == 0 {
                44100
            } else {
                rate
            }) && c == (if channels == 0 {
                1
            } else {
                channels
            }) && played.len() == raw.len() && (forall|i: int|
                0 <= i < raw.len() ==> #[trigger] played[i] as int == (if bits == 24 {
                    raw[i] as int / 256
                } else {
                    raw[i] as int
                })) && (bits == 8 ==> depth.spec_full_scale() == 128) && (bits == 16
                ==> depth.spec_full_scale() == 32768) && (bits == 24 ==> depth.spec_full_scale()
                == 8388608)))
        },
{
}

/// Reads the bytes of a WAV file and makes them ready to play, or says why
/// they are not played.
pub fn load_wav(bytes: &[u8]) -> (r: Result<PcmStream, WavError>)
    ensures
        pcm_view(r) == pcm_of(wav_decoded(bytes@)),
{
    let decoded: Option<DecodedWav> = decode_wav(bytes);
    pcm_from_decoded(decoded)
}

/// The number of whole frames in interleaved samples.
pub fn frame_count(samples: usize, channels: u16) -> (r: u64)
    requires
        channels > 0,
    ensures
        r == samples as int / channels as int,
{
    (samples as u64) / (channels as u64)
}

/// One step of a cursor over samples at a position: the sample there and
/// the next position, or none and the same position past the end.
pub open spec fn cursor_step<T>(samples: Seq<T>, pos: nat) -> (Option<T>, nat) {
    if pos < samples.len() {
        (Some(samples[pos as int]), pos + 1)
    } else {
        (None, pos)
    }
}

/// What `count` steps of a cursor at a position hand out, in order.
pub open spec fn cursor_outputs<T>(samples: Seq<T>, pos: nat, count: nat) -> Seq<Option<T>>
    decreases count,
{
    if count == 0 {
        Seq::<Option<T>>::empty()
    } else {
        let (out, next) = cursor_step(samples, pos);
        seq![out] + cursor_outputs(samples, next, (count - 1) as nat)
    }
}

/// A cursor hands out every sample from its position on exactly once, in
/// order, and nothing after the last one: `count` steps from a position
/// give the samples from there, then none.
pub proof fn law_cursor_yields_samples_in_order<T>(samples: Seq<T>, pos: nat, count: nat)
    requires
        pos <= samples.len(),
    ensures
        cursor_outputs(samples, pos, count) == Seq::new(
            count,
            |i: int|
                if pos + i < samples.len() {
                    Some(samples[pos + i])
                } else {
                    None::<T>
                },
        ),
    decreases count,
{
    if count > 0 {
        let next = cursor_step(samples, pos).1;
        law_cursor_yields_samples_in_order(samples, next, (count - 1) as nat);
        assert(cursor_outputs(samples, pos, count) =~= Seq::new(
            count,
            |i: int|
                if pos + i < samples.len() {
                    Some(samples[pos + i])
                } else {
                    None::<T>
                },
        ));
    } else {
        assert(cursor_outputs(samples, pos, count) =~= Seq::new(
            count,
            |i: int|
                if pos + i < samples.len() {
                    Some(samples[pos + i])
                } else {
                    None::<T>
                },
        ));
    }
}

/// Decoded samples and the position of the next one to play.
pub struct SampleCursor<T> {
    samples: Vec<T>,
    pos: usize,
}

impl<T: Copy> SampleCursor<T> {
    /// All the samples.
    pub closed spec fn samples(&self) -> Seq<T> {
        self.samples@
    }

    /// How many samples were already handed out.
    pub closed spec fn position(&self) -> nat {
        self.pos as nat
    }

    /// The cursor's invariant: it points into the samples or just past them.
    pub closed spec fn well_formed(&self) -> bool {
        self.pos <= self.samples@.len()
    }

    /// A cursor at the first sample.
    pub fn new(samples: Vec<T>) -> (r: Self)
        ensures
            r.well_formed(),
            r.samples() == samples@,
            r.position() == 0,
    {
        SampleCursor { samples, pos: 0 }
    }

    /// The number of samples.
    pub fn len(&self) -> (r: usize)
        ensures
            r == self.samples().len(),
    {
        self.samples.len()
    }

    /// How many samples are left to hand out.
    pub fn remaining(&self) -> (r: usize)
        requires
            self.well_formed(),
        ensures
            r == self.samples().len() - self.position(),
    {
        self.samples.len() - self.pos
    }

    /// Hands out the next sample, or none when all were handed out.
    pub fn next_sample(&mut self) -> (r: Option<T>)
        requires
            old(self).well_formed(),
        ensures
            final(self).well_formed(),
            final(self).samples() == old(self).samples(),
            (r, final(self).position()) == cursor_step(old(self).samples(), old(self).position()),
            old(self).position() < old(self).samples().len() ==> r == Some(
                old(self).samples()[old(self).position() as int],
            ) && final(self).position() == old(self).position() + 1,
            old(self).position() >= old(self).samples().len() ==> r is None
                && final(self).position() == old(self).position(),
    {
        if self.pos < self.samples.len() {
            let s: T = self.samples[self.pos];
            self.pos = self.pos + 1;
            Some(s)
        } else {
            None
        }
    }
}

} // verus!
