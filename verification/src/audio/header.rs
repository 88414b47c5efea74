//! The audio sub-header, which follows the header of an audio asset, and the
//! container headers that are written from it.

use crate::audio::ogg::{page_bytes, push_page};
use crate::audio::opus::{OpusHead, OpusTags};
use crate::bytes::{
    le_bytes_u16, le_bytes_u32, push_bytes, push_u16_le, push_u32_le, read_u16_le, read_u32_le,
    u16_le, u32_le,
};
use crate::error::BuildError;
use crate::metadata::Metadata;
use crate::text::from_chars;
use vstd::prelude::*;

verus! {

/// How the samples of an asset are compressed.
#[allow(clippy::upper_case_acronyms)]
#[derive(Debug, Clone, Copy, PartialEq, Eq, Structural)]
pub enum AudioCompressionFormat {
    PCM,
    ADPCM,
    Opus,
    Unknown,
}

/// The compression that `tag` announces.
pub open spec fn compression_of(tag: u32) -> AudioCompressionFormat {
    if tag == 0x00 {
        AudioCompressionFormat::PCM
    } else if tag == 0x05 {
        AudioCompressionFormat::ADPCM
    } else if tag == 0x07 {
        AudioCompressionFormat::Opus
    } else {
        AudioCompressionFormat::Unknown
    }
}

impl From<u32> for AudioCompressionFormat {
    fn from(value: u32) -> (format: AudioCompressionFormat) {
        if value == 0x00 {
            AudioCompressionFormat::PCM
        } else if value == 0x05 {
            AudioCompressionFormat::ADPCM
        } else if value == 0x07 {
            AudioCompressionFormat::Opus
        } else {
            AudioCompressionFormat::Unknown
        }
    }
}

impl vstd::std_specs::convert::FromSpecImpl<u32> for AudioCompressionFormat {
    open spec fn obeys_from_spec() -> bool {
        true
    }

    open spec fn from_spec(value: u32) -> AudioCompressionFormat {
        compression_of(value)
    }
}

/// The audio sub-header.
#[derive(Clone, Copy, Debug, PartialEq, Eq, Structural)]
pub struct AudioHeader {
    pub format_tag: AudioCompressionFormat,
    /// The serial number of the Ogg stream that is written from this header.
    pub stream_serial_number: u32,
    pub samples_per_second: u32,
    pub bits_per_sample: u8,
    pub channels: u8,
    pub average_bytes_per_second: u32,
    pub block_align: u16,
    pub samples_per_block: u16,
    /// The number of bytes of samples.
    pub size: u32,
}

/// The length of the audio sub-header in bytes.
pub const AUDIO_HEADER_LEN: usize = 66;

/// The audio sub-header that stands in `data` at `base`, with the given
/// serial number for its stream. Four bytes are needed to tell the
/// compression, and the whole sub-header if the compression is a known one.
pub open spec fn audio_header_at(data: Seq<u8>, base: int, serial: u32) -> Result<
    AudioHeader,
    BuildError,
> {
    if base + 4 > data.len() {
        Err(BuildError::Truncated)
    } else if compression_of(u32_le(data, base) as u32) == AudioCompressionFormat::Unknown {
        Err(BuildError::UnknownFormat)
    } else if base + AUDIO_HEADER_LEN > data.len() {
        Err(BuildError::Truncated)
    } else {
        Ok(
            AudioHeader {
                format_tag: compression_of(u32_le(data, base) as u32),
                stream_serial_number: serial,
                samples_per_second: u32_le(data, base + 32) as u32,
                bits_per_sample: data[base + 36],
                channels: data[base + 37],
                average_bytes_per_second: u32_le(data, base + 42) as u32,
                block_align: u16_le(data, base + 46) as u16,
                samples_per_block: u16_le(data, base + 48) as u16,
                size: u32_le(data, base + 62) as u32,
            },
        )
    }
}

/// The two's complement of `x` in two bytes, least significant first.
pub open spec fn le_bytes_i16(x: i16) -> Seq<u8> {
    le_bytes_u16(
        if x >= 0 {
            x as u16
        } else {
            (x + 0x1_0000) as u16
        },
    )
}

/// The seven pairs of coefficients of ADPCM, pair after pair.
pub open spec fn adpcm_coefficients() -> Seq<i16> {
    seq![
        256i16,
        0i16,
        512i16,
        (-256) as i16,
        0i16,
        0i16,
        192i16,
        64i16,
        240i16,
        0i16,
        460i16,
        (-208) as i16,
        392i16,
        (-232) as i16,
    ]
}

/// The first `count` of `values`, each in two bytes.
pub open spec fn i16_bytes(values: Seq<i16>, count: nat) -> Seq<u8>
    decreases count,
{
    if count == 0 || count > values.len() {
        Seq::empty()
    } else {
        i16_bytes(values, (count - 1) as nat) + le_bytes_i16(values[count - 1])
    }
}

/// The bytes "RIFF".
pub open spec fn riff_tag() -> Seq<u8> {
    seq![0x52u8, 0x49u8, 0x46u8, 0x46u8]
}

/// The bytes "WAVE".
pub open spec fn wave_tag() -> Seq<u8> {
    seq![0x57u8, 0x41u8, 0x56u8, 0x45u8]
}

/// The bytes "fmt ".
pub open spec fn fmt_tag() -> Seq<u8> {
    seq![0x66u8, 0x6du8, 0x74u8, 0x20u8]
}

/// The bytes "data".
pub open spec fn data_tag() -> Seq<u8> {
    seq![0x64u8, 0x61u8, 0x74u8, 0x61u8]
}

impl AudioHeader {
    /// The number of bytes that one sample takes over all channels.
    pub open spec fn pcm_block_align(&self) -> int {
        (self.channels * self.bits_per_sample) / 8
    }

    /// The WAV header for samples that are not compressed: 44 bytes.
    pub open spec fn wav_pcm(&self) -> Seq<u8> {
        riff_tag() + le_bytes_u32((self.size + 32) as u32) + wave_tag() + fmt_tag()
            + le_bytes_u32(16) + le_bytes_u16(0x01) + le_bytes_u16(self.channels as u16)
            + le_bytes_u32(self.samples_per_second) + le_bytes_u32(
            (self.samples_per_second * self.pcm_block_align()) as u32,
        ) + le_bytes_u16(self.pcm_block_align() as u16) + le_bytes_u16(
            self.bits_per_sample as u16,
        ) + data_tag() + le_bytes_u32(self.size)
    }

    /// The WAV header for ADPCM samples: 78 bytes. The format chunk has 50
    /// bytes, 32 of them in its extension, which holds the samples per block
    /// and the seven pairs of coefficients.
    pub open spec fn wav_adpcm(&self) -> Seq<u8> {
        riff_tag() + le_bytes_u32((self.size + 66) as u32) + wave_tag() + fmt_tag()
            + le_bytes_u32(50) + le_bytes_u16(0x02) + le_bytes_u16(self.channels as u16)
            + le_bytes_u32(self.samples_per_second) + le_bytes_u32(self.average_bytes_per_second)
            + le_bytes_u16(self.block_align) + le_bytes_u16(self.bits_per_sample as u16)
            + le_bytes_u16(32) + le_bytes_u16(self.samples_per_block) + le_bytes_u16(7)
            + i16_bytes(adpcm_coefficients(), 14) + data_tag() + le_bytes_u32(self.size)
    }

    /// Decodes the audio sub-header that follows the header described by
    /// `metadata` in `data`. The stream that is later written from it gets
    /// the serial number `stream_serial_number`.
    pub fn from_with_metadata(data: &[u8], metadata: &Metadata, stream_serial_number: u32) -> (header:
        Result<Self, BuildError>)
        ensures
            header == audio_header_at(data@, metadata.size as int, stream_serial_number),
    {
        let base = metadata.size;
        let tag = match read_u32_le(data, base) {
            Some(tag) => tag,
            None => { return Err(BuildError::Truncated); },
        };
        let format_tag = AudioCompressionFormat::from(tag);
        if format_tag == AudioCompressionFormat::Unknown {
            return Err(BuildError::UnknownFormat);
        }
        if data.len() - base < AUDIO_HEADER_LEN {
            return Err(BuildError::Truncated);
        }
        let samples_per_second = read_u32_le(data, base + 32).unwrap();
        let bits_per_sample = data[base + 36];
        let channels = data[base + 37];
        let average_bytes_per_second = read_u32_le(data, base + 42).unwrap();
        let block_align = read_u16_le(data, base + 46).unwrap();
        let samples_per_block = read_u16_le(data, base + 48).unwrap();
        let size = read_u32_le(data, base + 62).unwrap();
        Ok(
            Self {
                format_tag,
                stream_serial_number,
                samples_per_second,
                bits_per_sample,
                channels,
                average_bytes_per_second,
                block_align,
                samples_per_block,
                size,
            },
        )
    }

    /// Writes the WAV header for samples that are not compressed.
    pub fn to_wav_pcm(self) -> (data: Vec<u8>)
        requires
            self.size + 32 <= u32::MAX,
            self.samples_per_second * self.pcm_block_align() <= u32::MAX,
        ensures
            data@ == self.wav_pcm(),
            data@.len() == 44,
    {
        assert(self.channels * self.bits_per_sample <= 65025) by (nonlinear_arith)
            requires
                self.channels <= 255,
                self.bits_per_sample <= 255,
        ;
        let block_align: u16 = (self.channels as u16 * self.bits_per_sample as u16) / 8;
        let average_bytes_per_second: u32 = self.samples_per_second * block_align as u32;
        let mut data: Vec<u8> = Vec::new();
        push_tag(&mut data, 0x52, 0x49, 0x46, 0x46);
        push_u32_le(&mut data, self.size + 32);
        push_tag(&mut data, 0x57, 0x41, 0x56, 0x45);
        push_tag(&mut data, 0x66, 0x6d, 0x74, 0x20);
        push_u32_le(&mut data, 16);
        push_u16_le(&mut data, 0x01);
        push_u16_le(&mut data, self.channels as u16);
        push_u32_le(&mut data, self.samples_per_second);
        push_u32_le(&mut data, average_bytes_per_second);
        push_u16_le(&mut data, block_align);
        push_u16_le(&mut data, self.bits_per_sample as u16);
        push_tag(&mut data, 0x64, 0x61, 0x74, 0x61);
        push_u32_le(&mut data, self.size);
        assert(data@ =~= self.wav_pcm());
        data
    }

    /// Writes the WAV header for ADPCM samples.
    pub fn to_wav_adpcm(self) -> (data: Vec<u8>)
        requires
            self.size + 66 <= u32::MAX,
        ensures
            data@ == self.wav_adpcm(),
            data@.len() == 78,
    {
        let mut data: Vec<u8> = Vec::new();
        push_tag(&mut data, 0x52, 0x49, 0x46, 0x46);
        push_u32_le(&mut data, self.size + 66);
        push_tag(&mut data, 0x57, 0x41, 0x56, 0x45);
        push_tag(&mut data, 0x66, 0x6d, 0x74, 0x20);
        push_u32_le(&mut data, 50);
        push_u16_le(&mut data, 0x02);
        push_u16_le(&mut data, self.channels as u16);
        push_u32_le(&mut data, self.samples_per_second);
        push_u32_le(&mut data, self.average_bytes_per_second);
        push_u16_le(&mut data, self.block_align);
        push_u16_le(&mut data, self.bits_per_sample as u16);
        push_u16_le(&mut data, 32);
        push_u16_le(&mut data, self.samples_per_block);
        push_u16_le(&mut data, 7);
        let ghost start = data@;
        let coefficients: Vec<i16> = vec![
            256,
            0,
            512,
            -256,
            0,
            0,
            192,
            64,
            240,
            0,
            460,
            -208,
            392,
            -232,
        ];
        assert(coefficients@ =~= adpcm_coefficients());
        let mut i: usize = 0;
        while i < coefficients.len()
            invariant
                0 <= i <= coefficients@.len(),
                coefficients@.len() == 14,
                data@ == start + i16_bytes(coefficients@, i as nat),
                data@.len() == start.len() + 2 * i,
            decreases coefficients@.len() - i,
        {
            push_i16_le(&mut data, coefficients[i]);
            i += 1;
            assert(data@ =~= start + i16_bytes(coefficients@, i as nat));
        }
        push_tag(&mut data, 0x64, 0x61, 0x74, 0x61);
        push_u32_le(&mut data, self.size);
        assert(data@ =~= self.wav_adpcm());
        data
    }

    /// The identification header of the stream written from this header:
    /// version 1, a pre-skip of 312 samples, no gain and mapping family 0.
    pub open spec fn opus_head(&self) -> Seq<u8> {
        crate::audio::opus::opus_head_magic() + seq![1u8, self.channels] + le_bytes_u16(312)
            + le_bytes_u32(self.samples_per_second) + le_bytes_u16(0) + seq![0u8]
    }

    /// The comment header of the stream written from this header: the vendor
    /// "Warframe" and the one comment "ARTIST=Warframe".
    pub open spec fn opus_tags(&self) -> Seq<u8> {
        crate::audio::opus::opus_tags_magic() + crate::audio::opus::length_prefix(vendor_bytes())
            + vendor_bytes() + le_bytes_u32(1) + crate::audio::opus::length_prefix(
            artist_bytes(),
        ) + artist_bytes()
    }

    /// The two pages that open the stream written from this header. The
    /// first holds the identification header, has sequence number 0 and is
    /// marked as the beginning of the stream; the second holds the comment
    /// header and has sequence number 1.
    pub open spec fn opus_header_pages(&self) -> Seq<u8> {
        page_bytes(0x02, 0, self.stream_serial_number, 0, self.opus_head(), 255) + page_bytes(
            0x00,
            0,
            self.stream_serial_number,
            1,
            self.opus_tags(),
            255,
        )
    }

    /// Writes the two pages that open the stream.
    pub fn to_opus(self) -> (data: Vec<u8>)
        ensures
            data@ == self.opus_header_pages(),
    {
        let mut data: Vec<u8> = Vec::new();
        let opus_head = OpusHead::new(1, self.channels, 312, self.samples_per_second, 0, 0);
        let head = opus_head.to_bytes();
        assert(head@ =~= self.opus_head());
        push_page(&mut data, 0x02, 0, self.stream_serial_number, 0, head.as_slice(), 255);

        let vendor = from_chars(vendor_chars().as_slice());
        let artist = from_chars(artist_chars().as_slice());
        let mut comments: Vec<String> = Vec::new();
        comments.push(artist);
        let opus_tags = OpusTags::new(vendor, comments);
        let tags = opus_tags.to_bytes();
        proof {
            let list = opus_tags.user_comment_list@;
            assert(crate::audio::opus::comment_bytes(list, 0) =~= Seq::<u8>::empty());
            assert(crate::audio::opus::comment_bytes(list, 1) =~= crate::audio::opus::length_prefix(
                artist_bytes(),
            ) + artist_bytes());
            assert(tags@ =~= self.opus_tags());
        }
        push_page(&mut data, 0x00, 0, self.stream_serial_number, 1, tags.as_slice(), 255);
        data
    }
}

/// The characters of "Warframe".
pub open spec fn vendor_text() -> Seq<char> {
    seq!['W', 'a', 'r', 'f', 'r', 'a', 'm', 'e']
}

/// The characters of "ARTIST=Warframe".
pub open spec fn artist_text() -> Seq<char> {
    seq!['A', 'R', 'T', 'I', 'S', 'T', '='] + vendor_text()
}

/// The bytes of "Warframe" in UTF-8.
pub open spec fn vendor_bytes() -> Seq<u8> {
    vstd::utf8::encode_utf8(vendor_text())
}

/// The bytes of "ARTIST=Warframe" in UTF-8.
pub open spec fn artist_bytes() -> Seq<u8> {
    vstd::utf8::encode_utf8(artist_text())
}

fn vendor_chars() -> (chars: Vec<char>)
    ensures
        chars@ == vendor_text(),
{
    let chars: Vec<char> = vec!['W', 'a', 'r', 'f', 'r', 'a', 'm', 'e'];
    assert(chars@ =~= vendor_text());
    chars
}

fn artist_chars() -> (chars: Vec<char>)
    ensures
        chars@ == artist_text(),
{
    let chars: Vec<char> = vec![
        'A',
        'R',
        'T',
        'I',
        'S',
        'T',
        '=',
        'W',
        'a',
        'r',
        'f',
        'r',
        'a',
        'm',
        'e',
    ];
    assert(chars@ =~= artist_text());
    chars
}

fn push_tag(out: &mut Vec<u8>, b0: u8, b1: u8, b2: u8, b3: u8)
    ensures
        final(out)@ == old(out)@ + seq![b0, b1, b2, b3],
{
    out.push(b0);
    out.push(b1);
    out.push(b2);
    out.push(b3);
    assert(out@ =~= old(out)@ + seq![b0, b1, b2, b3]);
}

fn push_i16_le(out: &mut Vec<u8>, x: i16)
    ensures
        final(out)@ == old(out)@ + le_bytes_i16(x),
        final(out)@.len() == old(out)@.len() + 2,
{
    let raw: u16 = if x >= 0 {
        x as u16
    } else {
        (x as i32 + 0x1_0000) as u16
    };
    push_u16_le(out, raw);
}

} // verus!
