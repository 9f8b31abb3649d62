//! The WAV carrier of stored media: the format a phrase is written in, and
//! the header checks a stored blob must pass before its samples are read.

use vstd::prelude::*;

verus! {

/// The header facts of a WAV stream that the store reads.
#[derive(Clone, Copy, PartialEq, Eq, Debug, Structural)]
pub struct WavFormat {
    pub channels: u16,
    pub sample_rate: u32,
    pub bits_per_sample: u16,
    /// Whether samples are IEEE floats (otherwise integers).
    pub float_samples: bool,
}

/// Why a stored blob cannot be read back as one phrase.
#[derive(Clone, Copy, PartialEq, Eq, Debug, Structural)]
pub enum MediaDefect {
    /// The bytes are not a WAV stream.
    Unreadable,
    /// The stream has more than one channel.
    NotMono,
    /// The samples are not 32-bit floats.
    NotFloat32,
    /// The sample data ends early or is malformed.
    CorruptSamples,
}

/// The reason text of each defect.
pub open spec fn defect_reason(d: MediaDefect) -> Seq<char> {
    match d {
        MediaDefect::Unreadable => "unreadable WAV"@,
        MediaDefect::NotMono => "expected mono audio"@,
        MediaDefect::NotFloat32 => "expected 32-bit float samples"@,
        MediaDefect::CorruptSamples => "corrupt sample data"@,
    }
}

impl MediaDefect {
    /// The reason text of this defect.
    pub fn reason(self) -> (r: &'static str)
        ensures
            r@ == defect_reason(self),
            self == MediaDefect::Unreadable ==> r@ == "unreadable WAV"@,
            self == MediaDefect::NotMono ==> r@ == "expected mono audio"@,
            self == MediaDefect::NotFloat32 ==> r@ == "expected 32-bit float samples"@,
            self == MediaDefect::CorruptSamples ==> r@ == "corrupt sample data"@,
    {
        match self {
            MediaDefect::Unreadable => "unreadable WAV",
            MediaDefect::NotMono => "expected mono audio",
            MediaDefect::NotFloat32 => "expected 32-bit float samples",
            MediaDefect::CorruptSamples => "corrupt sample data",
        }
    }
}

/// The header that hound reads from `bytes`, if it reads one.
pub uninterp spec fn wav_header(bytes: Seq<u8>) -> Option<WavFormat>;

/// `bytes` opens with the `RIFF` tag and carries the `WAVE` form type at
/// offset 8.
pub open spec fn has_riff_wave_tags(bytes: Seq<u8>) -> bool {
    &&& bytes.len() >= 12
    &&& bytes[0] == 0x52u8
    &&& bytes[1] == 0x49u8
    &&& bytes[2] == 0x46u8
    &&& bytes[3] == 0x46u8
    &&& bytes[8] == 0x57u8
    &&& bytes[9] == 0x41u8
    &&& bytes[10] == 0x56u8
    &&& bytes[11] == 0x45u8
}

/// Reads the header of a WAV stream with `hound::WavReader::new` and
/// reports its spec. The result depends on the bytes alone; hound reads
/// the header only when the stream starts with `RIFF`, a length, and
/// `WAVE`, and refuses a format chunk with zero channels.
#[verifier::external_body]
fn read_wav_header(bytes: &[u8]) -> (r: Option<WavFormat>)
    ensures
        r == wav_header(bytes@),
        r is Some ==> has_riff_wave_tags(bytes@),
        r matches Some(f) ==> f.channels > 0,
{
    match hound::WavReader::new(std::io::Cursor::new(bytes)) {
        Ok(reader) => {
            let spec = reader.spec();
            Some(WavFormat {
                channels: spec.channels,
                sample_rate: spec.sample_rate,
                bits_per_sample: spec.bits_per_sample,
                float_samples: matches!(spec.sample_format, hound::SampleFormat::Float),
            })
        },
        Err(_) => None,
    }
}

/// What a header says of a stored phrase: its sample rate when it is mono
/// 32-bit float audio, otherwise the first defect found.
pub open spec fn header_verdict(h: Option<WavFormat>) -> Result<u32, MediaDefect> {
    match h {
        None => Err(MediaDefect::Unreadable),
        Some(f) => if f.channels != 1 {
            Err(MediaDefect::NotMono)
        } else if !f.float_samples || f.bits_per_sample != 32 {
            Err(MediaDefect::NotFloat32)
        } else {
            Ok(f.sample_rate)
        },
    }
}

/// Checks the header of a stored blob: the sample rate of a mono 32-bit
/// float WAV, or the defect that stops it from being read as a phrase.
pub fn check_header(header: Option<WavFormat>) -> (r: Result<u32, MediaDefect>)
    ensures
        r == header_verdict(header),
        header is None ==> r == Err::<u32, MediaDefect>(MediaDefect::Unreadable),
        header matches Some(f) && f.channels != 1 ==> r == Err::<u32, MediaDefect>(
            MediaDefect::NotMono,
        ),
        header matches Some(f) && f.channels == 1 && (!f.float_samples || f.bits_per_sample != 32)
            ==> r == Err::<u32, MediaDefect>(MediaDefect::NotFloat32),
        r matches Ok(rate) ==> header matches Some(f) && f.channels == 1 && f.float_samples
            && f.bits_per_sample == 32 && rate == f.sample_rate,
{
    match header {
        None => Err(MediaDefect::Unreadable),
        Some(f) => {
            if f.channels != 1 {
                Err(MediaDefect::NotMono)
            } else if !f.float_samples || f.bits_per_sample != 32 {
                Err(MediaDefect::NotFloat32)
            } else {
                Ok(f.sample_rate)
            }
        },
    }
}

/// Inspects a stored blob before its samples are read: the sample rate of
/// a mono 32-bit float WAV, or the defect that rejects it.
pub fn inspect_media(bytes: &[u8]) -> (r: Result<u32, MediaDefect>)
    ensures
        r == header_verdict(wav_header(bytes@)),
        wav_header(bytes@) is None ==> r == Err::<u32, MediaDefect>(MediaDefect::Unreadable),
        wav_header(bytes@) matches Some(f) && f.channels != 1 ==> r == Err::<u32, MediaDefect>(
            MediaDefect::NotMono,
        ),
        wav_header(bytes@) matches Some(f) && f.channels == 1 && (!f.float_samples
            || f.bits_per_sample != 32) ==> r == Err::<u32, MediaDefect>(MediaDefect::NotFloat32),
        r matches Ok(rate) ==> wav_header(bytes@) matches Some(f) && f.channels == 1
            && f.float_samples && f.bits_per_sample == 32 && rate == f.sample_rate,
        !has_riff_wave_tags(bytes@) ==> r == Err::<u32, MediaDefect>(MediaDefect::Unreadable),
{
    check_header(read_wav_header(bytes))
}

/// The format every phrase is stored in: mono 32-bit float samples at the
/// capture rate.
pub open spec fn stored_format(sample_rate: u32) -> WavFormat {
    WavFormat { channels: 1, sample_rate, bits_per_sample: 32, float_samples: true }
}

/// The format a phrase captured at `sample_rate` is written in.
pub fn stored_media_format(sample_rate: u32) -> (r: WavFormat)
    ensures
        r == stored_format(sample_rate),
        r.channels == 1 && r.float_samples && r.bits_per_sample == 32 && r.sample_rate
            == sample_rate,
{
    WavFormat { channels: 1, sample_rate, bits_per_sample: 32, float_samples: true }
}

/// The header check accepts exactly mono 32-bit float audio, at its own
/// sample rate: a missing header is unreadable, more than one channel is
/// not mono, and a mono stream whose samples are not 32-bit IEEE floats is
/// refused as such.
pub proof fn lemma_header_verdict(h: Option<WavFormat>)
    ensures
        h is None ==> header_verdict(h) == Err::<u32, MediaDefect>(MediaDefect::Unreadable),
        h matches Some(f) && f.channels != 1 ==> header_verdict(h) == Err::<u32, MediaDefect>(
            MediaDefect::NotMono,
        ),
        h matches Some(f) && f.channels == 1 && !f.float_samples ==> header_verdict(h) == Err::<
            u32,
            MediaDefect,
        >(MediaDefect::NotFloat32),
        h matches Some(f) && f.channels == 1 && f.bits_per_sample != 32 ==> header_verdict(h)
            == Err::<u32, MediaDefect>(MediaDefect::NotFloat32),
        header_verdict(h) matches Ok(rate) ==> h matches Some(f) && f.channels == 1
            && f.float_samples && f.bits_per_sample == 32 && rate == f.sample_rate,
        h matches Some(f) ==> (f.channels == 1 && f.float_samples && f.bits_per_sample == 32
            ==> header_verdict(h) == Ok::<u32, MediaDefect>(f.sample_rate)),
{
}

/// The format the store writes passes the header check it applies on read,
/// at the same sample rate.
pub proof fn lemma_stored_format_accepted(sample_rate: u32)
    ensures
        header_verdict(Some(stored_format(sample_rate))) == Ok::<u32, MediaDefect>(sample_rate),
        stored_format(sample_rate).channels == 1,
        stored_format(sample_rate).float_samples,
        stored_format(sample_rate).bits_per_sample == 32,
        stored_format(sample_rate).sample_rate == sample_rate,
{
}

} // verus!
