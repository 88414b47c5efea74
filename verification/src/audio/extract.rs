//! The audio builder: from the header of an asset and the payloads in its
//! partitions to a WAV file or an Ogg/Opus stream.

use crate::audio::header::{audio_header_at, AudioCompressionFormat, AudioHeader};
use crate::audio::ogg::{page_bytes, push_page};
use crate::bytes::{push_bytes, tail, tail_of};
use crate::error::BuildError;
use crate::metadata::{FileType, Metadata};
use crate::partition::{payload_of, Extension, Partitions};
use vstd::prelude::*;

verus! {

/// The samples of an ADPCM asset: the last `size` bytes of the payload in B
/// followed by the payload in F, if there is one. B must hold a payload, and
/// the two together at least `size` bytes.
pub open spec fn adpcm_samples(size: u32, partitions: Partitions) -> Option<Seq<u8>> {
    let joined = payload_of(partitions.b) + payload_of(partitions.f);
    if partitions.b is Some && joined.len() >= size {
        Some(tail_of(joined, size as int))
    } else {
        None
    }
}

/// The samples of an Opus asset: the payload in F if it has exactly `size`
/// bytes, else the last `size` bytes of the payload in B.
pub open spec fn opus_samples(size: u32, partitions: Partitions) -> Option<Seq<u8>> {
    if partitions.f is Some && payload_of(partitions.f).len() == size {
        Some(payload_of(partitions.f))
    } else if partitions.b is Some && payload_of(partitions.b).len() >= size {
        Some(tail_of(payload_of(partitions.b), size as int))
    } else {
        None
    }
}

/// The number of bytes of samples in a full data page: 50 blocks where a
/// block has 255 bytes or more, else 100 blocks.
pub open spec fn chunk_len(block_align: u16) -> int {
    if block_align >= 255 {
        block_align * 50
    } else {
        block_align * 100
    }
}

/// The number of data pages that `len` bytes of samples fill.
pub open spec fn page_count(len: int, block_align: u16) -> int {
    (len + chunk_len(block_align) - 1) / chunk_len(block_align)
}

/// The samples in the data page with the given index, counted from 0.
pub open spec fn page_samples(samples: Seq<u8>, block_align: u16, index: int) -> Seq<u8> {
    let from = index * chunk_len(block_align);
    let to = if from + chunk_len(block_align) < samples.len() {
        from + chunk_len(block_align)
    } else {
        samples.len() as int
    };
    samples.subrange(from, to)
}

/// The header type of the data page with the given index: that of the end of
/// the stream if the page is not full, else that of an ordinary page.
pub open spec fn page_header_type(samples: Seq<u8>, block_align: u16, index: int) -> u8 {
    if page_samples(samples, block_align, index).len() < chunk_len(block_align) {
        0x04
    } else {
        0x00
    }
}

/// The granule position of the data page with the given index.
pub open spec fn page_granule(header: AudioHeader, index: int) -> int {
    (index + 1) * header.samples_per_second
}

/// The sequence number of the data page with the given index.
pub open spec fn page_sequence(index: int) -> int {
    index + 2
}

/// The data page with the given index. Each block of samples is a packet.
pub open spec fn data_page(header: AudioHeader, samples: Seq<u8>, index: int) -> Seq<u8> {
    page_bytes(
        page_header_type(samples, header.block_align, index),
        page_granule(header, index) as u64,
        header.stream_serial_number,
        page_sequence(index) as u32,
        page_samples(samples, header.block_align, index),
        header.block_align as nat,
    )
}

/// The first `count` data pages, one after the other.
pub open spec fn data_pages(header: AudioHeader, samples: Seq<u8>, count: nat) -> Seq<u8>
    decreases count,
{
    if count == 0 {
        Seq::empty()
    } else {
        data_pages(header, samples, (count - 1) as nat) + data_page(header, samples, count - 1)
    }
}

/// The whole stream: the two header pages, then the data pages.
pub open spec fn opus_stream(header: AudioHeader, samples: Seq<u8>) -> Seq<u8> {
    header.opus_header_pages() + data_pages(
        header,
        samples,
        page_count(samples.len() as int, header.block_align) as nat,
    )
}

/// The container that is built from a decoded audio sub-header. A size that
/// the size field of a WAV file cannot hold, and blocks of no bytes for an
/// Opus stream, are refused before the partitions are looked at.
pub open spec fn container_of(header: AudioHeader, partitions: Partitions) -> Result<
    (Seq<u8>, Extension),
    BuildError,
> {
    match header.format_tag {
        AudioCompressionFormat::ADPCM => {
            if header.size + 66 > u32::MAX {
                Err(BuildError::UnknownFormat)
            } else {
                match adpcm_samples(header.size, partitions) {
                    Some(samples) => Ok((header.wav_adpcm() + samples, Extension::Wav)),
                    None => Err(BuildError::MissingPartition),
                }
            }
        },
        AudioCompressionFormat::Opus => {
            if header.block_align == 0 {
                Err(BuildError::UnknownFormat)
            } else {
                match opus_samples(header.size, partitions) {
                    Some(samples) => Ok((opus_stream(header, samples), Extension::Opus)),
                    None => Err(BuildError::MissingPartition),
                }
            }
        },
        _ => Err(BuildError::UnknownFormat),
    }
}

/// The container that is built from an asset: none unless the asset is
/// audio, its sub-header is whole and tells a known compression, and the
/// partitions hold its samples.
pub open spec fn audio_container(
    file_type: FileType,
    data: Seq<u8>,
    base: int,
    serial: u32,
    partitions: Partitions,
) -> Result<(Seq<u8>, Extension), BuildError> {
    if file_type != FileType::Audio {
        Err(BuildError::UnsupportedAsset)
    } else {
        match audio_header_at(data, base, serial) {
            Ok(header) => container_of(header, partitions),
            Err(error) => Err(error),
        }
    }
}

/// Whether `built` is what `model` says.
pub open spec fn is_container(
    built: Result<(Vec<u8>, Extension), BuildError>,
    model: Result<(Seq<u8>, Extension), BuildError>,
) -> bool {
    match (built, model) {
        (Ok(file), Ok(expected)) => file.0@ == expected.0 && file.1 == expected.1,
        (Err(error), Err(expected)) => error == expected,
        _ => false,
    }
}

fn collect_adpcm(size: u32, partitions: &Partitions) -> (samples: Option<Vec<u8>>)
    ensures
        samples is Some <==> adpcm_samples(size, *partitions) is Some,
        samples is Some ==> samples->0@ == adpcm_samples(size, *partitions)->0,
{
    let b = match &partitions.b {
        Some(b) => b,
        None => { return None; },
    };
    let mut joined: Vec<u8> = Vec::new();
    push_bytes(&mut joined, b.as_slice());
    match &partitions.f {
        Some(f) => {
            push_bytes(&mut joined, f.as_slice());
        },
        None => {
            assert(joined@ =~= payload_of(partitions.b) + payload_of(partitions.f));
        },
    }
    if joined.len() < size as usize {
        return None;
    }
    Some(tail(joined.as_slice(), size as usize))
}

fn collect_opus(size: u32, partitions: &Partitions) -> (samples: Option<Vec<u8>>)
    ensures
        samples is Some <==> opus_samples(size, *partitions) is Some,
        samples is Some ==> samples->0@ == opus_samples(size, *partitions)->0,
        samples is Some ==> samples->0@.len() == size,
{
    match &partitions.f {
        Some(f) => {
            if f.len() == size as usize {
                let samples = tail(f.as_slice(), size as usize);
                assert(samples@ =~= f@);
                return Some(samples);
            }
        },
        None => {},
    }
    match &partitions.b {
        Some(b) => {
            if b.len() >= size as usize {
                Some(tail(b.as_slice(), size as usize))
            } else {
                None
            }
        },
        None => None,
    }
}

proof fn lemma_page_count(len: int, chunk: int, index: int)
    requires
        chunk > 0,
        0 <= len,
        0 <= index,
        index * chunk >= len,
        index > 0 ==> (index - 1) * chunk < len,
    ensures
        (len + chunk - 1) / chunk == index,
{
    assert((len + chunk - 1) / chunk == index) by (nonlinear_arith)
        requires
            chunk > 0,
            0 <= len,
            0 <= index,
            index * chunk >= len,
            index > 0 ==> (index - 1) * chunk < len,
    ;
}

proof fn lemma_page_bounds(index: int, chunk: int, len: int, rate: int)
    requires
        chunk >= 100,
        0 <= index,
        index * chunk < len <= u32::MAX,
        0 <= rate <= u32::MAX,
    ensures
        (index + 1) * chunk == index * chunk + chunk,
        index + 2 <= u32::MAX,
        0 <= (index + 1) * rate <= u64::MAX,
{
    assert((index + 1) * chunk == index * chunk + chunk) by (nonlinear_arith);
    assert(index * 100 <= index * chunk) by (nonlinear_arith)
        requires
            chunk >= 100,
            index >= 0,
    ;
    assert(0 <= (index + 1) * rate <= 0x1000_0000 * 0xFFFF_FFFF) by (nonlinear_arith)
        requires
            0 <= index + 1 <= 0x1000_0000,
            0 <= rate <= 0xFFFF_FFFF,
    ;
}

/// Writes the stream of an Opus asset.
fn write_opus(header: AudioHeader, samples: &[u8]) -> (out: Vec<u8>)
    requires
        header.block_align > 0,
        samples@.len() <= u32::MAX,
    ensures
        out@ == opus_stream(header, samples@),
{
    let block_align = header.block_align;
    let chunk: u64 = if block_align >= 255 {
        block_align as u64 * 50
    } else {
        block_align as u64 * 100
    };
    let len: u64 = samples.len() as u64;
    let rate: u64 = header.samples_per_second as u64;
    let mut out = header.to_opus();
    let ghost start = out@;
    let mut index: u64 = 0;
    let mut from: u64 = 0;
    assert(data_pages(header, samples@, 0) =~= Seq::<u8>::empty());
    while from < len
        invariant
            chunk == chunk_len(block_align),
            block_align == header.block_align,
            100 <= chunk <= 0x1_0000 * 100,
            len == samples@.len(),
            len <= u32::MAX,
            rate == header.samples_per_second,
            from == index * chunk,
            index > 0 ==> (index - 1) * chunk < len,
            out@ == start + data_pages(header, samples@, index as nat),
        decreases len + chunk - from,
    {
        proof {
            lemma_page_bounds(index as int, chunk as int, len as int, rate as int);
        }
        let to: u64 = if len - from > chunk {
            from + chunk
        } else {
            len
        };
        let body = vstd::slice::slice_subrange(samples, from as usize, to as usize);
        let header_type: u8 = if to - from < chunk {
            0x04
        } else {
            0x00
        };
        let ghost before = out@;
        push_page(
            &mut out,
            header_type,
            (index + 1) * rate,
            header.stream_serial_number,
            (index + 2) as u32,
            body,
            block_align as usize,
        );
        proof {
            assert(body@ =~= page_samples(samples@, block_align, index as int));
            assert(out@ == before + data_page(header, samples@, index as int));
            assert(data_pages(header, samples@, (index + 1) as nat) == data_pages(
                header,
                samples@,
                index as nat,
            ) + data_page(header, samples@, index as int));
            assert(out@ =~= start + data_pages(header, samples@, (index + 1) as nat));
        }
        from = from + chunk;
        index += 1;
    }
    proof {
        lemma_page_count(len as int, chunk as int, index as int);
    }
    out
}

/// Builds the container of an audio asset. `data` holds the header that
/// `metadata` describes and the audio sub-header behind it; `partitions`
/// holds the samples.
pub fn extract(
    metadata: &Metadata,
    data: &[u8],
    partitions: &Partitions,
    stream_serial_number: u32,
) -> (built: Result<(Vec<u8>, Extension), BuildError>)
    ensures
        is_container(
            built,
            audio_container(
                metadata.file_type,
                data@,
                metadata.size as int,
                stream_serial_number,
                *partitions,
            ),
        ),
{
    match metadata.file_type {
        FileType::Audio => {},
        _ => { return Err(BuildError::UnsupportedAsset); },
    }
    let header = match AudioHeader::from_with_metadata(data, metadata, stream_serial_number) {
        Ok(header) => header,
        Err(error) => { return Err(error); },
    };
    match header.format_tag {
        AudioCompressionFormat::ADPCM => {
            if header.size > u32::MAX - 66 {
                return Err(BuildError::UnknownFormat);
            }
            match collect_adpcm(header.size, partitions) {
                Some(samples) => {
                    let mut out = header.to_wav_adpcm();
                    push_bytes(&mut out, samples.as_slice());
                    Ok((out, Extension::Wav))
                },
                None => Err(BuildError::MissingPartition),
            }
        },
        AudioCompressionFormat::Opus => {
            if header.block_align == 0 {
                return Err(BuildError::UnknownFormat);
            }
            match collect_opus(header.size, partitions) {
                Some(samples) => Ok((write_opus(header, samples.as_slice()), Extension::Opus)),
                None => Err(BuildError::MissingPartition),
            }
        },
        _ => Err(BuildError::UnknownFormat),
    }
}

/// An Opus asset with blocks of 255 bytes or more and one byte of samples
/// more than 50 blocks fills two data pages behind the two header pages: a
/// full one, and one with the last byte that is marked as the end of the
/// stream. The granule position of each data page is the sample rate times
/// the number of data pages up to it.
pub proof fn lemma_one_byte_past_a_page(header: AudioHeader, samples: Seq<u8>)
    requires
        header.block_align >= 255,
        samples.len() == header.block_align * 50 + 1,
    ensures
        page_count(samples.len() as int, header.block_align) == 2,
        page_samples(samples, header.block_align, 0).len() == header.block_align * 50,
        page_samples(samples, header.block_align, 1).len() == 1,
        page_header_type(samples, header.block_align, 0) == 0x00,
        page_header_type(samples, header.block_align, 1) == 0x04,
        forall|index: int| page_granule(header, index) == (index + 1) * header.samples_per_second,
        opus_stream(header, samples) == header.opus_header_pages() + data_page(header, samples, 0)
            + data_page(header, samples, 1),
{
    let chunk = chunk_len(header.block_align);
    assert((samples.len() + chunk - 1) / chunk == 2) by (nonlinear_arith)
        requires
            chunk >= 12750,
            samples.len() == chunk + 1,
    ;
    assert(data_pages(header, samples, 0) =~= Seq::<u8>::empty());
    assert(data_pages(header, samples, 1) =~= data_page(header, samples, 0));
    assert(data_pages(header, samples, 2) =~= data_page(header, samples, 0) + data_page(
        header,
        samples,
        1,
    ));
    assert(opus_stream(header, samples) =~= header.opus_header_pages() + data_page(
        header,
        samples,
        0,
    ) + data_page(header, samples, 1));
}

/// Where the F partition holds nothing of an asset and the B partition
/// holds `size` bytes or more, the samples are the last `size` bytes of the
/// payload in B, whatever the compression.
pub proof fn lemma_samples_are_the_tail(size: u32, partitions: Partitions)
    requires
        partitions.f is None,
        partitions.b is Some,
        payload_of(partitions.b).len() >= size,
    ensures
        adpcm_samples(size, partitions) == Some(tail_of(payload_of(partitions.b), size as int)),
        opus_samples(size, partitions) == Some(tail_of(payload_of(partitions.b), size as int)),
{
    assert(payload_of(partitions.b) + payload_of(partitions.f) =~= payload_of(partitions.b));
}

/// The WAV file of an ADPCM asset ends with its samples: where the F
/// partition holds nothing of the asset, with the last bytes of the payload
/// in B.
pub proof fn lemma_wav_ends_with_the_tail(header: AudioHeader, partitions: Partitions)
    requires
        header.format_tag == AudioCompressionFormat::ADPCM,
        header.size + 66 <= u32::MAX,
        partitions.f is None,
        partitions.b is Some,
        payload_of(partitions.b).len() >= header.size,
    ensures
        container_of(header, partitions) is Ok,
        tail_of(container_of(header, partitions)->Ok_0.0, header.size as int) == tail_of(
            payload_of(partitions.b),
            header.size as int,
        ),
{
    lemma_samples_are_the_tail(header.size, partitions);
    let samples = tail_of(payload_of(partitions.b), header.size as int);
    let file = header.wav_adpcm() + samples;
    assert(tail_of(file, header.size as int) =~= samples);
}

} // verus!
