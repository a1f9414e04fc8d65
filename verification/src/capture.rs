use vstd::prelude::*;

use crate::render::interleaved_index;

verus! {

/// `wFormatTag` of a plain 32-bit IEEE float stream.
pub const WAVE_FORMAT_IEEE_FLOAT: u16 = 3;

/// `wFormatTag` of a WAVEFORMATEXTENSIBLE stream, whose sub-format GUID says
/// what the samples are.
pub const WAVE_FORMAT_EXTENSIBLE: u16 = 0xFFFE;

/// The capture-buffer flag that marks a packet as silence.
pub const AUDCLNT_BUFFERFLAGS_SILENT: u32 = 2;

/// A COM GUID, field by field.
#[derive(Debug, Clone, Copy)]
pub struct Guid {
    pub data1: u32,
    pub data2: u16,
    pub data3: u16,
    pub data4: [u8; 8],
}

/// Two GUIDs hold the same 128 bits.
pub open spec fn same_guid(a: Guid, b: Guid) -> bool {
    &&& a.data1 == b.data1
    &&& a.data2 == b.data2
    &&& a.data3 == b.data3
    &&& a.data4@ == b.data4@
}

impl Guid {
    /// Whether both GUIDs hold the same value.
    pub fn same_as(&self, other: &Guid) -> (r: bool)
        ensures
            r == same_guid(*self, *other),
    {
        if self.data1 != other.data1 || self.data2 != other.data2 || self.data3 != other.data3 {
            return false;
        }
        let mut i: usize = 0;
        while i < 8
            invariant
                i <= 8,
                forall|j: int| 0 <= j < i ==> self.data4@[j] == other.data4@[j],
            decreases 8 - i,
        {
            if self.data4[i] != other.data4[i] {
                return false;
            }
            i = i + 1;
        }
        assert(self.data4@ =~= other.data4@);
        true
    }
}

/// The sub-format GUID of 32-bit IEEE float samples,
/// {00000003-0000-0010-8000-00AA00389B71}.
pub fn ksdataformat_subtype_ieee_float() -> (g: Guid)
    ensures
        g.data1 == 3 && g.data2 == 0 && g.data3 == 0x10,
        g.data4@ == seq![0x80u8, 0x00, 0x00, 0xAA, 0x00, 0x38, 0x9B, 0x71],
{
    let g = Guid {
        data1: 0x00000003,
        data2: 0x0000,
        data3: 0x0010,
        data4: [0x80, 0x00, 0x00, 0xAA, 0x00, 0x38, 0x9B, 0x71],
    };
    assert(g.data4@ =~= seq![0x80u8, 0x00, 0x00, 0xAA, 0x00, 0x38, 0x9B, 0x71]);
    g
}

/// Sample rate and channel count of an audio stream.
#[derive(Debug, Clone, Copy, PartialEq, Eq, Structural)]
pub struct StreamFormat {
    /// Samples per second per channel.
    pub sample_rate: u32,
    /// Number of interleaved channels.
    pub channels: u16,
}

/// The fields of a WAVEFORMATEX header.
#[derive(Debug, Clone, Copy, PartialEq, Eq, Structural)]
pub struct WaveFormat {
    pub format_tag: u16,
    pub channels: u16,
    pub samples_per_sec: u32,
    pub avg_bytes_per_sec: u32,
    pub block_align: u16,
    pub bits_per_sample: u16,
    pub cb_size: u16,
}

/// A mix format that is not 32-bit IEEE float.
#[derive(Debug, Clone, Copy, PartialEq, Eq, Structural)]
pub struct UnsupportedFormat {
    pub tag: u16,
    pub bits: u16,
}

/// A plain WAVEFORMATEX describing 32-bit float samples in `fmt`:
/// four bytes per sample, `channels * 4` bytes per frame.
pub fn make_waveformatex(fmt: &StreamFormat) -> (w: WaveFormat)
    requires
        fmt.channels * 4 <= u16::MAX,
        fmt.sample_rate * (fmt.channels * 4) <= u32::MAX,
    ensures
        w.format_tag == WAVE_FORMAT_IEEE_FLOAT,
        w.channels == fmt.channels,
        w.samples_per_sec == fmt.sample_rate,
        w.block_align == fmt.channels * 4,
        w.avg_bytes_per_sec == fmt.sample_rate * (fmt.channels * 4),
        w.bits_per_sample == 32,
        w.cb_size == 0,
{
    let block_align: u16 = fmt.channels * 4;
    WaveFormat {
        format_tag: WAVE_FORMAT_IEEE_FLOAT,
        channels: fmt.channels,
        samples_per_sec: fmt.sample_rate,
        avg_bytes_per_sec: fmt.sample_rate * block_align as u32,
        block_align,
        bits_per_sample: 32,
        cb_size: 0,
    }
}

/// Whether a mix format carries 32-bit IEEE float samples: the float tag
/// with 32 bits, or the extensible tag with the float sub-format and 32 bits.
pub open spec fn is_float32(tag: u16, bits: u16, sub_format: Guid) -> bool {
    if tag == WAVE_FORMAT_IEEE_FLOAT {
        bits == 32
    } else if tag == WAVE_FORMAT_EXTENSIBLE {
        sub_format.data1 == 3 && sub_format.data2 == 0 && sub_format.data3 == 0x10
            && sub_format.data4@ == seq![0x80u8, 0x00, 0x00, 0xAA, 0x00, 0x38, 0x9B, 0x71] && bits
            == 32
    } else {
        false
    }
}

/// Accepts a device mix format of 32-bit IEEE float samples (any channel
/// count) and reports its stream format; anything else is unsupported.
/// `sub_format` is read from the extensible header and matters only for
/// the extensible tag.
pub fn parse_mix_format(
    tag: u16,
    bits: u16,
    sub_format: &Guid,
    sample_rate: u32,
    channels: u16,
) -> (r: Result<StreamFormat, UnsupportedFormat>)
    ensures
        is_float32(tag, bits, *sub_format) ==> r == Ok::<StreamFormat, UnsupportedFormat>(
            StreamFormat { sample_rate, channels },
        ),
        !is_float32(tag, bits, *sub_format) ==> r == Err::<StreamFormat, UnsupportedFormat>(
            UnsupportedFormat { tag, bits },
        ),
{
    let float32 = if tag == WAVE_FORMAT_IEEE_FLOAT {
        bits == 32
    } else if tag == WAVE_FORMAT_EXTENSIBLE {
        let ieee = ksdataformat_subtype_ieee_float();
        sub_format.same_as(&ieee) && bits == 32
    } else {
        false
    };
    if float32 {
        Ok(StreamFormat { sample_rate, channels })
    } else {
        Err(UnsupportedFormat { tag, bits })
    }
}

/// The number of samples in a captured packet that should be processed:
/// none when the packet is flagged silent or empty, else one per channel
/// per frame.
pub fn captured_sample_count(flags: u32, num_frames: u32, channels: u16) -> (r: Option<usize>)
    requires
        num_frames * channels <= usize::MAX,
    ensures
        r == if flags & AUDCLNT_BUFFERFLAGS_SILENT != 0 || num_frames == 0 {
            None::<usize>
        } else {
            Some((num_frames * channels) as usize)
        },
{
    let is_silent = flags & AUDCLNT_BUFFERFLAGS_SILENT != 0;
    if is_silent || num_frames == 0 {
        None
    } else {
        Some(num_frames as usize * channels as usize)
    }
}

/// The stereo samples taken from an interleaved packet of `channels`
/// channels: the whole packet when it is stereo, else channels 0 and 1 of
/// every complete frame.
pub open spec fn stereo_part<T>(samples: Seq<T>, channels: nat) -> Seq<T> {
    if channels == 2 {
        samples
    } else {
        Seq::new(
            2 * (samples.len() / channels),
            |p: int| samples[(p / 2) * channels as int + p % 2],
        )
    }
}

/// Replaces the contents of `out` with the stereo part of `samples` (see
/// `stereo_part`); the filter chain always works on stereo.
/// For every channel count from 2 on, the stereo part of a packet holds,
/// in order, channels 0 and 1 of each complete frame: its sample `2f + c`
/// (`c` in 0..2) is channel `c` of frame `f`. A packet of more than two
/// channels gives two samples per complete frame; a stereo packet is taken
/// whole.
pub proof fn lemma_stereo_part_front_channels<T>(samples: Seq<T>, channels: nat, f: int, c: int)
    requires
        channels >= 2,
    ensures
        channels == 2 ==> stereo_part(samples, channels) == samples,
        channels > 2 ==> stereo_part(samples, channels).len() == 2 * (samples.len() as int / channels as int),
        0 <= f < samples.len() as int / channels as int && 0 <= c < 2 ==> 0 <= interleaved_index(f, c, channels) < samples.len()
            && stereo_part(samples, channels)[interleaved_index(f, c, 2)]
            == samples[interleaved_index(f, c, channels)],
{
    if 0 <= f < samples.len() as int / channels as int && 0 <= c < 2 {
        let n = samples.len() as int / channels as int;
        let p = 2 * f + c;
        assert(p / 2 == f && p % 2 == c);
        assert((f + 1) * channels <= n * channels) by (nonlinear_arith)
            requires
                f + 1 <= n,
        ;
        assert(n * channels <= samples.len()) by (nonlinear_arith)
            requires
                n == samples.len() as int / channels as int,
                channels >= 2,
        ;
        assert((f + 1) * channels == f * channels + channels) by (nonlinear_arith);
        assert(f * channels >= 0) by (nonlinear_arith)
            requires
                f >= 0,
        ;
    }
}

pub fn copy_stereo<T: Copy>(samples: &[T], channels: usize, out: &mut Vec<T>)
    requires
        channels >= 2 || (channels == 1 && samples@.len() == 0),
    ensures
        final(out)@ == stereo_part(samples@, channels as nat),
        channels == 2 ==> final(out)@ == samples@,
        channels > 2 ==> final(out)@.len() == 2 * (samples@.len() as int / channels as int),
        forall|f: int, c: int|
            0 <= f < samples@.len() as int / channels as int && 0 <= c < 2 ==> #[trigger] final(out)@[
                interleaved_index(f, c, 2)] == samples@[interleaved_index(f, c, channels as nat)],
{
    out.clear();
    if channels == 2 {
        let mut i: usize = 0;
        while i < samples.len()
            invariant
                i <= samples@.len(),
                out@ == samples@.take(i as int),
            decreases samples@.len() - i,
        {
            out.push(samples[i]);
            assert(samples@.take(i as int + 1) =~= samples@.take(i as int).push(samples@[i as int]));
            i = i + 1;
        }
        assert(samples@.take(samples@.len() as int) =~= samples@);
    } else {
        let frames = samples.len() / channels;
        let mut f: usize = 0;
        while f < frames
            invariant
                f <= frames,
                channels >= 1,
                channels >= 2 || samples@.len() == 0,
                samples@.len() <= usize::MAX,
                frames == samples@.len() as int / channels as int,
                out@.len() == 2 * f,
                forall|p: int|
                    0 <= p < 2 * f ==> #[trigger] out@[p] == samples@[(p / 2) * channels as int + p
                        % 2],
            decreases frames - f,
        {
            proof {
                assert((f + 1) * channels <= frames * channels) by (nonlinear_arith)
                    requires
                        f + 1 <= frames,
                ;
                assert(frames * channels <= samples@.len()) by (nonlinear_arith)
                    requires
                        frames == samples@.len() as int / channels as int,
                        channels >= 1,
                ;
                assert((f + 1) * channels == f * channels + channels) by (nonlinear_arith);
            }
            proof {
                if samples@.len() == 0 {
                    assert(frames == 0);
                }
                assert(channels >= 2);
            }
            let base = f * channels;
            let l = samples[base];
            let r = samples[base + 1];
            let ghost before = out@;
            out.push(l);
            out.push(r);
            proof {
                assert forall|p: int| 0 <= p < 2 * (f + 1) implies #[trigger] out@[p]
                    == samples@[(p / 2) * channels as int + p % 2] by {
                    if p < 2 * f {
                        assert(out@[p] == before[p]);
                    } else if p == 2 * f {
                        assert(p / 2 == f && p % 2 == 0);
                    } else {
                        assert(p / 2 == f && p % 2 == 1);
                    }
                }
            }
            f = f + 1;
        }
        assert(out@ =~= stereo_part(samples@, channels as nat));
    }
    proof {
        assert forall|f: int, c: int|
            0 <= f < samples@.len() as int / channels as int && 0 <= c < 2 implies #[trigger] out@[
            interleaved_index(f, c, 2)] == samples@[interleaved_index(f, c, channels as nat)] by {
            lemma_stereo_part_front_channels(samples@, channels as nat, f, c);
        }
        if channels > 2 {
            lemma_stereo_part_front_channels(samples@, channels as nat, 0, 0);
        }
    }
}

} // verus!
