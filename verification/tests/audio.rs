use lotus_extract::audio::extract::extract;
use lotus_extract::audio::header::{AudioCompressionFormat, AudioHeader};
use lotus_extract::audio::ogg::{get_segment_table, OggBody, OggHeader, OggPage};
use lotus_extract::audio::opus::{OpusHead, OpusTags};
use lotus_extract::error::BuildError;
use lotus_extract::metadata::Metadata;
use lotus_extract::partition::{Extension, Partitions};

fn asset_header(tag: u32) -> Vec<u8> {
    let mut data = vec![0u8; 16];
    data.extend_from_slice(&1u32.to_le_bytes());
    data.extend_from_slice(&6u32.to_le_bytes());
    data.extend_from_slice(b"/a.wav");
    data.extend_from_slice(&0u32.to_le_bytes());
    data.extend_from_slice(&tag.to_le_bytes());
    data
}

fn audio_sub_header(format: u32, rate: u32, bits: u8, channels: u8, average: u32, block_align: u16, samples_per_block: u16, size: u32) -> Vec<u8> {
    let mut data = Vec::new();
    data.extend_from_slice(&format.to_le_bytes());
    data.extend_from_slice(&[0xEE; 4]);
    data.extend_from_slice(&[0xDD; 24]);
    data.extend_from_slice(&rate.to_le_bytes());
    data.push(bits);
    data.push(channels);
    data.extend_from_slice(&[0xCC; 4]);
    data.extend_from_slice(&average.to_le_bytes());
    data.extend_from_slice(&block_align.to_le_bytes());
    data.extend_from_slice(&samples_per_block.to_le_bytes());
    data.extend_from_slice(&[0xBB; 12]);
    data.extend_from_slice(&size.to_le_bytes());
    data
}

fn audio_asset(format: u32, block_align: u16, size: u32) -> Vec<u8> {
    let mut data = asset_header(0x8B);
    data.extend_from_slice(&audio_sub_header(format, 48000, 16, 2, 96000, block_align, 128, size));
    data
}

fn partitions(f: Option<Vec<u8>>, b: Option<Vec<u8>>) -> Partitions {
    Partitions { f, b, f_fragment: None }
}

fn ramp(len: usize) -> Vec<u8> {
    (0..len).map(|i| (i * 7 + 3) as u8).collect()
}

fn crc32_msb_first(data: &[u8]) -> u32 {
    let mut crc: u32 = 0;
    for byte in data {
        crc ^= (*byte as u32) << 24;
        for _ in 0..8 {
            crc = if crc & 0x8000_0000 != 0 { (crc << 1) ^ 0x04C1_1DB7 } else { crc << 1 };
        }
    }
    crc
}

struct ParsedPage {
    header_type: u8,
    granule: u64,
    serial: u32,
    sequence: u32,
    checksum: u32,
    segments: Vec<u8>,
    body: Vec<u8>,
    checksum_holds: bool,
}

fn parse_pages(stream: &[u8]) -> Vec<ParsedPage> {
    let mut pages = Vec::new();
    let mut at = 0;
    while at < stream.len() {
        assert_eq!(&stream[at..at + 4], b"OggS");
        assert_eq!(stream[at + 4], 0);
        let header_type = stream[at + 5];
        let granule = u64::from_le_bytes(stream[at + 6..at + 14].try_into().unwrap());
        let serial = u32::from_le_bytes(stream[at + 14..at + 18].try_into().unwrap());
        let sequence = u32::from_le_bytes(stream[at + 18..at + 22].try_into().unwrap());
        let checksum = u32::from_le_bytes(stream[at + 22..at + 26].try_into().unwrap());
        let count = stream[at + 26] as usize;
        let segments = stream[at + 27..at + 27 + count].to_vec();
        let body_len: usize = segments.iter().map(|s| *s as usize).sum();
        let body_at = at + 27 + count;
        let body = stream[body_at..body_at + body_len].to_vec();
        let mut page = stream[at..body_at + body_len].to_vec();
        page[22..26].copy_from_slice(&[0; 4]);
        let checksum_holds = crc32_msb_first(&page) == checksum;
        pages.push(ParsedPage { header_type, granule, serial, sequence, checksum, segments, body, checksum_holds });
        at = body_at + body_len;
    }
    pages
}

#[test]
fn adpcm_header_has_riff_size_and_format_chunk_size() {
    let data = audio_asset(0x05, 70, 100);
    let metadata = Metadata::decode(&data).unwrap();
    let payload = ramp(100);
    let (file, extension) = extract(&metadata, &data, &partitions(None, Some(payload.clone())), 1).unwrap();
    assert_eq!(extension, Extension::Wav);
    assert_eq!(extension.as_str(), "wav");
    assert_eq!(file.len(), 78 + 100);
    assert_eq!(&file[0..4], b"RIFF");
    assert_eq!(u32::from_le_bytes(file[4..8].try_into().unwrap()), 166);
    assert_eq!(&file[8..12], b"WAVE");
    assert_eq!(&file[12..16], b"fmt ");
    assert_eq!(u32::from_le_bytes(file[16..20].try_into().unwrap()), 50);
    assert_eq!(u16::from_le_bytes(file[20..22].try_into().unwrap()), 2);
    assert_eq!(u16::from_le_bytes(file[22..24].try_into().unwrap()), 2);
    assert_eq!(u32::from_le_bytes(file[24..28].try_into().unwrap()), 48000);
    assert_eq!(u32::from_le_bytes(file[28..32].try_into().unwrap()), 96000);
    assert_eq!(u16::from_le_bytes(file[32..34].try_into().unwrap()), 70);
    assert_eq!(u16::from_le_bytes(file[34..36].try_into().unwrap()), 16);
    assert_eq!(u16::from_le_bytes(file[36..38].try_into().unwrap()), 32);
    assert_eq!(u16::from_le_bytes(file[38..40].try_into().unwrap()), 128);
    assert_eq!(u16::from_le_bytes(file[40..42].try_into().unwrap()), 7);
    let expected: [[i16; 2]; 7] = [[256, 0], [512, -256], [0, 0], [192, 64], [240, 0], [460, -208], [392, -232]];
    for (i, pair) in expected.iter().enumerate() {
        let at = 42 + 4 * i;
        assert_eq!(i16::from_le_bytes(file[at..at + 2].try_into().unwrap()), pair[0]);
        assert_eq!(i16::from_le_bytes(file[at + 2..at + 4].try_into().unwrap()), pair[1]);
    }
    assert_eq!(&file[70..74], b"data");
    assert_eq!(u32::from_le_bytes(file[74..78].try_into().unwrap()), 100);
    assert_eq!(&file[78..], &payload[..]);
}

#[test]
fn adpcm_keeps_the_trailing_bytes_of_b() {
    let data = audio_asset(0x05, 70, 100);
    let metadata = Metadata::decode(&data).unwrap();
    let payload = ramp(250);
    let (file, _) = extract(&metadata, &data, &partitions(None, Some(payload.clone())), 1).unwrap();
    assert_eq!(&file[78..], &payload[150..]);
    assert_ne!(&file[78..], &payload[..100]);
}

#[test]
fn adpcm_joins_b_and_f_with_b_first() {
    let data = audio_asset(0x05, 70, 100);
    let metadata = Metadata::decode(&data).unwrap();
    let b = vec![1u8; 80];
    let f = vec![2u8; 60];
    let (file, _) = extract(&metadata, &data, &partitions(Some(f), Some(b)), 1).unwrap();
    let mut expected = vec![1u8; 40];
    expected.extend_from_slice(&[2u8; 60]);
    assert_eq!(&file[78..], &expected[..]);
}

#[test]
fn adpcm_needs_b_and_enough_bytes() {
    let data = audio_asset(0x05, 70, 100);
    let metadata = Metadata::decode(&data).unwrap();
    assert_eq!(extract(&metadata, &data, &partitions(Some(ramp(200)), None), 1).err(), Some(BuildError::MissingPartition));
    assert_eq!(extract(&metadata, &data, &partitions(None, None), 1).err(), Some(BuildError::MissingPartition));
    assert_eq!(extract(&metadata, &data, &partitions(None, Some(ramp(99))), 1).err(), Some(BuildError::MissingPartition));
    assert_eq!(extract(&metadata, &data, &partitions(Some(ramp(50)), Some(ramp(49))), 1).err(), Some(BuildError::MissingPartition));
    assert!(extract(&metadata, &data, &partitions(Some(ramp(50)), Some(ramp(50))), 1).is_ok());
}

#[test]
fn adpcm_size_that_riff_cannot_hold_is_refused() {
    let data = audio_asset(0x05, 70, u32::MAX - 65);
    let metadata = Metadata::decode(&data).unwrap();
    assert_eq!(extract(&metadata, &data, &partitions(None, Some(ramp(10))), 1).err(), Some(BuildError::UnknownFormat));
}

#[test]
fn pcm_and_unknown_compression_are_refused() {
    let data = audio_asset(0x00, 4, 100);
    let metadata = Metadata::decode(&data).unwrap();
    assert_eq!(extract(&metadata, &data, &partitions(Some(ramp(100)), Some(ramp(100))), 1).err(), Some(BuildError::UnknownFormat));
    let data = audio_asset(0x06, 4, 100);
    let metadata = Metadata::decode(&data).unwrap();
    assert_eq!(extract(&metadata, &data, &partitions(Some(ramp(100)), Some(ramp(100))), 1).err(), Some(BuildError::UnknownFormat));
    assert_eq!(AudioHeader::from_with_metadata(&data, &metadata, 1).err(), Some(BuildError::UnknownFormat));
}

#[test]
fn short_audio_sub_header_is_truncated() {
    let data = audio_asset(0x05, 70, 100);
    let metadata = Metadata::decode(&data).unwrap();
    for len in metadata.size..data.len() {
        assert_eq!(AudioHeader::from_with_metadata(&data[..len], &metadata, 1).err(), Some(BuildError::Truncated), "cut at {}", len);
    }
    let unknown = audio_asset(0x09, 70, 100);
    assert_eq!(AudioHeader::from_with_metadata(&unknown[..metadata.size + 4], &metadata, 1).err(), Some(BuildError::UnknownFormat));
    assert_eq!(AudioHeader::from_with_metadata(&unknown[..metadata.size + 3], &metadata, 1).err(), Some(BuildError::Truncated));
}

#[test]
fn audio_sub_header_fields_are_read_at_their_offsets() {
    let mut data = asset_header(0x8B);
    data.extend_from_slice(&audio_sub_header(0x07, 44100, 24, 6, 123456, 320, 960, 0xDEADBEEF));
    let metadata = Metadata::decode(&data).unwrap();
    let header = AudioHeader::from_with_metadata(&data, &metadata, 77).unwrap();
    assert_eq!(header.format_tag, AudioCompressionFormat::Opus);
    assert_eq!(header.stream_serial_number, 77);
    assert_eq!(header.samples_per_second, 44100);
    assert_eq!(header.bits_per_sample, 24);
    assert_eq!(header.channels, 6);
    assert_eq!(header.average_bytes_per_second, 123456);
    assert_eq!(header.block_align, 320);
    assert_eq!(header.samples_per_block, 960);
    assert_eq!(header.size, 0xDEADBEEF);
    assert_eq!(AudioCompressionFormat::from(0), AudioCompressionFormat::PCM);
    assert_eq!(AudioCompressionFormat::from(5), AudioCompressionFormat::ADPCM);
    assert_eq!(AudioCompressionFormat::from(7), AudioCompressionFormat::Opus);
    assert_eq!(AudioCompressionFormat::from(1), AudioCompressionFormat::Unknown);
}

#[test]
fn a_texture_is_no_audio() {
    let mut data = asset_header(0xA3);
    data.extend_from_slice(&audio_sub_header(0x05, 48000, 16, 2, 96000, 70, 128, 100));
    let metadata = Metadata::decode(&data).unwrap();
    assert_eq!(extract(&metadata, &data, &partitions(None, Some(ramp(100))), 1).err(), Some(BuildError::UnsupportedAsset));
}

#[test]
fn opus_one_byte_past_a_page_gives_two_data_pages() {
    let block_align: u16 = 256;
    let size = block_align as u32 * 50 + 1;
    let data = audio_asset(0x07, block_align, size);
    let metadata = Metadata::decode(&data).unwrap();
    let payload = ramp(size as usize);
    let (stream, extension) = extract(&metadata, &data, &partitions(Some(payload.clone()), None), 0xABCD1234).unwrap();
    assert_eq!(extension, Extension::Opus);
    assert_eq!(extension.as_str(), "opus");
    let pages = parse_pages(&stream);
    assert_eq!(pages.len(), 4);
    assert_eq!(pages[0].header_type, 0x02);
    assert_eq!(pages[0].sequence, 0);
    assert_eq!(pages[0].granule, 0);
    assert_eq!(&pages[0].body[..8], b"OpusHead");
    assert_eq!(pages[0].body.len(), 19);
    assert_eq!(pages[0].segments, vec![19]);
    assert_eq!(pages[1].header_type, 0x00);
    assert_eq!(pages[1].sequence, 1);
    assert_eq!(pages[1].granule, 0);
    assert_eq!(&pages[1].body[..8], b"OpusTags");
    assert_eq!(pages[2].header_type, 0x00);
    assert_eq!(pages[3].header_type, 0x04);
    assert_eq!(pages[3].header_type & 0x04, 0x04);
    for (i, page) in pages[2..].iter().enumerate() {
        assert_eq!(page.granule, (i as u64 + 1) * 48000);
        assert_eq!(page.sequence, i as u32 + 2);
    }
    assert_eq!(pages[2].body, &payload[..12800]);
    assert_eq!(pages[3].body, &payload[12800..]);
    assert_eq!(pages[2].segments.len(), 100);
    assert_eq!(pages[3].segments, vec![1]);
    for page in &pages {
        assert_eq!(page.serial, 0xABCD1234);
        assert!(page.checksum_holds);
    }
}

#[test]
fn opus_pages_of_small_blocks_hold_a_hundred_blocks() {
    let block_align: u16 = 40;
    let size: u32 = 40 * 100 * 2;
    let data = audio_asset(0x07, block_align, size);
    let metadata = Metadata::decode(&data).unwrap();
    let payload = ramp(size as usize);
    let (stream, _) = extract(&metadata, &data, &partitions(Some(payload.clone()), None), 5).unwrap();
    let pages = parse_pages(&stream);
    assert_eq!(pages.len(), 4);
    assert_eq!(pages[2].body.len(), 4000);
    assert_eq!(pages[2].segments, vec![40u8; 100]);
    assert_eq!(pages[2].header_type, 0x00);
    assert_eq!(pages[3].header_type, 0x00);
    assert_eq!(pages[3].granule, 96000);
}

#[test]
fn opus_without_samples_has_header_pages_only() {
    let data = audio_asset(0x07, 256, 0);
    let metadata = Metadata::decode(&data).unwrap();
    let (stream, _) = extract(&metadata, &data, &partitions(Some(Vec::new()), None), 5).unwrap();
    let header = AudioHeader::from_with_metadata(&data, &metadata, 5).unwrap();
    assert_eq!(stream, header.to_opus());
    assert_eq!(parse_pages(&stream).len(), 2);
}

#[test]
fn opus_prefers_f_and_falls_back_to_the_tail_of_b() {
    let data = audio_asset(0x07, 256, 10);
    let metadata = Metadata::decode(&data).unwrap();
    let f = vec![1u8; 10];
    let b: Vec<u8> = (0..30).collect();
    let (stream, _) = extract(&metadata, &data, &partitions(Some(f.clone()), Some(b.clone())), 5).unwrap();
    assert_eq!(parse_pages(&stream)[2].body, f);
    let (stream, _) = extract(&metadata, &data, &partitions(Some(vec![1u8; 11]), Some(b.clone())), 5).unwrap();
    assert_eq!(parse_pages(&stream)[2].body, &b[20..]);
    let (stream, _) = extract(&metadata, &data, &partitions(None, Some(b.clone())), 5).unwrap();
    assert_eq!(parse_pages(&stream)[2].body, &b[20..]);
    assert_eq!(extract(&metadata, &data, &partitions(Some(vec![1u8; 11]), None), 5).err(), Some(BuildError::MissingPartition));
    assert_eq!(extract(&metadata, &data, &partitions(None, Some(vec![1u8; 9])), 5).err(), Some(BuildError::MissingPartition));
    assert_eq!(extract(&metadata, &data, &partitions(None, None), 5).err(), Some(BuildError::MissingPartition));
}

#[test]
fn opus_without_block_length_is_refused() {
    let data = audio_asset(0x07, 0, 10);
    let metadata = Metadata::decode(&data).unwrap();
    assert_eq!(extract(&metadata, &data, &partitions(Some(vec![1u8; 10]), None), 5).err(), Some(BuildError::UnknownFormat));
}

#[test]
fn flipping_a_payload_byte_changes_the_checksum() {
    let body = ramp(300);
    let table = get_segment_table(&body, 255);
    let page = OggPage::new(0, 48000, 9, 2, table.len() as u8, table.clone(), body.clone());
    for at in [0usize, 1, 150, 299] {
        for bit in 0..8 {
            let mut flipped = body.clone();
            flipped[at] ^= 1 << bit;
            let other = OggPage::new(0, 48000, 9, 2, table.len() as u8, table.clone(), flipped);
            assert_ne!(other.header.checksum, page.header.checksum);
        }
    }
}

#[test]
fn page_checksum_is_the_crc_of_ogg() {
    let body = b"123456789".to_vec();
    let page = OggPage::new(0x02, 0x0102030405060708, 0x11223344, 0x55667788, 1, vec![9], body.clone());
    let mut unsealed = Vec::new();
    unsealed.extend_from_slice(b"OggS");
    unsealed.extend_from_slice(&[0, 0x02]);
    unsealed.extend_from_slice(&0x0102030405060708u64.to_le_bytes());
    unsealed.extend_from_slice(&0x11223344u32.to_le_bytes());
    unsealed.extend_from_slice(&0x55667788u32.to_le_bytes());
    unsealed.extend_from_slice(&[0, 0, 0, 0]);
    unsealed.push(1);
    unsealed.push(9);
    unsealed.extend_from_slice(&body);
    assert_eq!(crc32_msb_first(b"123456789"), 0x89A1897F);
    assert_eq!(page.header.checksum, crc32_msb_first(&unsealed));
    let mut sealed = unsealed.clone();
    sealed[22..26].copy_from_slice(&page.header.checksum.to_le_bytes());
    assert_eq!(page.to_bytes(), sealed);
    assert_eq!(page.header.magic, *b"OggS");
    assert_eq!(page.header.version, 0);
    assert_eq!(page.body.data, body);
}

#[test]
fn page_bytes_follow_the_fields() {
    let header = OggHeader { magic: *b"OggS", version: 0, header_type: 4, granule_position: 1, stream_serial_number: 2, page_sequence_number: 3, checksum: 0xAABBCCDD, page_segments: 2, segment_table: vec![255, 1] };
    let bytes = header.to_bytes();
    assert_eq!(bytes.len(), 29);
    assert_eq!(&bytes[22..26], &[0xDD, 0xCC, 0xBB, 0xAA]);
    assert_eq!(&bytes[26..], &[2, 255, 1]);
    let fresh = OggHeader::new(4, 1, 2, 3, 2, vec![255, 1]);
    assert_eq!(fresh.checksum, 0);
    assert_eq!(fresh.magic, *b"OggS");
    let page = OggPage { header, body: OggBody::new(vec![7; 256]) };
    let bytes = page.to_bytes();
    assert_eq!(bytes.len(), 29 + 256);
    assert_eq!(&bytes[29..], &[7u8; 256][..]);
    assert_eq!(OggBody::new(vec![1, 2]).to_bytes(), vec![1, 2]);
}

#[test]
fn segment_table_is_that_of_nested_chunks() {
    for (len, segment_size) in [(0usize, 255usize), (1, 255), (255, 255), (256, 255), (510, 255), (1000, 255), (1000, 300), (1000, 600), (12801, 256), (100, 1), (7, 1000), (4000, 40)] {
        let data = vec![0u8; len];
        let mut expected = Vec::new();
        for chunk in data.chunks(segment_size) {
            for segment in chunk.chunks(255) {
                expected.push(segment.len() as u8);
            }
        }
        assert_eq!(get_segment_table(&data, segment_size), expected, "{} by {}", len, segment_size);
    }
}

#[test]
fn wav_header_of_plain_samples() {
    let header = AudioHeader { format_tag: AudioCompressionFormat::PCM, stream_serial_number: 0, samples_per_second: 44100, bits_per_sample: 16, channels: 2, average_bytes_per_second: 0, block_align: 0, samples_per_block: 0, size: 1000 };
    let bytes = header.to_wav_pcm();
    assert_eq!(bytes.len(), 44);
    assert_eq!(&bytes[0..4], b"RIFF");
    assert_eq!(u32::from_le_bytes(bytes[4..8].try_into().unwrap()), 1032);
    assert_eq!(&bytes[8..16], b"WAVEfmt ");
    assert_eq!(u32::from_le_bytes(bytes[16..20].try_into().unwrap()), 16);
    assert_eq!(u16::from_le_bytes(bytes[20..22].try_into().unwrap()), 1);
    assert_eq!(u16::from_le_bytes(bytes[22..24].try_into().unwrap()), 2);
    assert_eq!(u32::from_le_bytes(bytes[24..28].try_into().unwrap()), 44100);
    assert_eq!(u32::from_le_bytes(bytes[28..32].try_into().unwrap()), 176400);
    assert_eq!(u16::from_le_bytes(bytes[32..34].try_into().unwrap()), 4);
    assert_eq!(u16::from_le_bytes(bytes[34..36].try_into().unwrap()), 16);
    assert_eq!(&bytes[36..40], b"data");
    assert_eq!(u32::from_le_bytes(bytes[40..44].try_into().unwrap()), 1000);
}

#[test]
fn opus_packets_follow_their_fields() {
    let head = OpusHead::new(1, 2, 312, 48000, 0, 0);
    let bytes = head.to_bytes();
    assert_eq!(&bytes[..8], b"OpusHead");
    assert_eq!(&bytes[8..], &[1, 2, 0x38, 0x01, 0x80, 0xBB, 0, 0, 0, 0, 0]);
    let tags = OpusTags::new("Warframe".to_string(), vec!["ARTIST=Warframe".to_string()]);
    let mut expected = b"OpusTags".to_vec();
    expected.extend_from_slice(&8u32.to_le_bytes());
    expected.extend_from_slice(b"Warframe");
    expected.extend_from_slice(&1u32.to_le_bytes());
    expected.extend_from_slice(&15u32.to_le_bytes());
    expected.extend_from_slice(b"ARTIST=Warframe");
    assert_eq!(tags.to_bytes(), expected);
    let header = AudioHeader { format_tag: AudioCompressionFormat::Opus, stream_serial_number: 3, samples_per_second: 48000, bits_per_sample: 16, channels: 2, average_bytes_per_second: 0, block_align: 256, samples_per_block: 0, size: 0 };
    let pages = parse_pages(&header.to_opus());
    assert_eq!(pages.len(), 2);
    assert_eq!(pages[0].body, bytes);
    assert_eq!(pages[1].body, expected);
    assert_eq!(pages[1].segments, vec![43]);
    assert_ne!(pages[0].checksum, 0);
    let empty = OpusTags::new(String::new(), Vec::new());
    assert_eq!(empty.to_bytes().len(), 16);
}
