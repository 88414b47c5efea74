use lotus_extract::arguments::{ArgumentValue, Scalar};
use lotus_extract::error::Truncated;
use lotus_extract::metadata::{FileType, Metadata};

fn header(paths: &[&[u8]], arguments: &[u8], tag: u32) -> Vec<u8> {
    let mut data = vec![0xAAu8; 16];
    data.extend_from_slice(&(paths.len() as u32).to_le_bytes());
    for path in paths {
        data.extend_from_slice(&(path.len() as u32).to_le_bytes());
        data.extend_from_slice(path);
    }
    data.extend_from_slice(&(arguments.len() as u32).to_le_bytes());
    data.extend_from_slice(arguments);
    if !arguments.is_empty() {
        data.push(0);
    }
    data.extend_from_slice(&tag.to_le_bytes());
    data
}

#[test]
fn decode_reads_paths_arguments_and_tag() {
    let mut data = header(&[b"/a/b.wav", b"/c"], b"x=3\n", 0x8B);
    let expected = data.len();
    data.extend_from_slice(&[1, 2, 3]);
    let metadata = Metadata::decode(&data).unwrap();
    assert_eq!(metadata.file_paths, vec!["/a/b.wav".to_string(), "/c".to_string()]);
    assert_eq!(metadata.raw_type, 0x8B);
    assert_eq!(metadata.file_type, FileType::Audio);
    assert_eq!(metadata.size, expected);
    assert_eq!(metadata.size, 16 + 4 + (4 + 8) + (4 + 2) + 4 + 4 + 1 + 4);
    assert!(metadata.is_supported());
    match &metadata.arguments {
        ArgumentValue::Mapping(entries) => {
            assert_eq!(entries.len(), 1);
            assert_eq!(entries[0].0, "x");
            assert!(matches!(entries[0].1, ArgumentValue::Scalar(Scalar::Integer(3))));
        }
        other => panic!("not a map: {:?}", other),
    }
}

#[test]
fn empty_arguments_have_no_byte_behind_them() {
    let data = header(&[], b"", 0xA3);
    let metadata = Metadata::decode(&data).unwrap();
    assert_eq!(metadata.size, 16 + 4 + 4 + 4);
    assert_eq!(metadata.size, data.len());
    assert_eq!(metadata.file_type, FileType::Texture);
    assert!(metadata.file_paths.is_empty());
}

#[test]
fn consumed_length_depends_on_declared_sizes_only() {
    let a = header(&[b"abc", b"de"], b"k=v\n", 0x8B);
    let b = header(&[b"xyz", b"\xff\xfe"], b"\n\n\n\n", 0x01);
    assert_eq!(Metadata::decode(&a).unwrap().size, Metadata::decode(&b).unwrap().size);
}

#[test]
fn paths_that_are_not_utf8_are_read_lossily() {
    let data = header(&[b"a\xffb"], b"", 0);
    let metadata = Metadata::decode(&data).unwrap();
    assert_eq!(metadata.file_paths[0], "a\u{fffd}b");
}

#[test]
fn unknown_tags_decode_as_unknown() {
    let data = header(&[], b"", 0x1234);
    let metadata = Metadata::decode(&data).unwrap();
    assert_eq!(metadata.file_type, FileType::Unknown);
    assert_eq!(metadata.raw_type, 0x1234);
    assert!(!metadata.is_supported());
}

#[test]
fn every_texture_tag_is_a_texture() {
    for tag in [0xA3u32, 0xA4, 0xA5, 0xA7, 0xAB, 0xAE, 0xB0, 0xB1, 0xB8, 0xBC, 0xC2, 0xC3] {
        assert_eq!(FileType::from(tag), FileType::Texture);
    }
    assert_eq!(FileType::from(0x8B), FileType::Audio);
    for tag in [0u32, 0x8A, 0x8C, 0xA2, 0xA6, 0xC4, u32::MAX] {
        assert_eq!(FileType::from(tag), FileType::Unknown);
    }
}

#[test]
fn every_cut_of_a_header_is_truncated() {
    let data = header(&[b"/a/b.wav", b"/c"], b"x=3\n", 0x8B);
    for len in 0..data.len() {
        assert_eq!(Metadata::decode(&data[..len]).err(), Some(Truncated), "cut at {}", len);
    }
    assert!(Metadata::decode(&data).is_ok());
}

#[test]
fn a_count_beyond_the_buffer_is_truncated() {
    let mut data = vec![0u8; 16];
    data.extend_from_slice(&u32::MAX.to_le_bytes());
    data.extend_from_slice(&[0u8; 64]);
    assert_eq!(Metadata::decode(&data).err(), Some(Truncated));
    let mut data = vec![0u8; 16];
    data.extend_from_slice(&1u32.to_le_bytes());
    data.extend_from_slice(&u32::MAX.to_le_bytes());
    data.extend_from_slice(&[0u8; 64]);
    assert_eq!(Metadata::decode(&data).err(), Some(Truncated));
}

#[test]
fn default_metadata_is_of_unknown_kind() {
    let metadata = Metadata::default();
    assert!(metadata.file_paths.is_empty());
    assert_eq!(metadata.file_type, FileType::Unknown);
    assert_eq!(metadata.raw_type, 0);
    assert_eq!(metadata.size, 0);
    assert!(!metadata.is_supported());
    assert!(matches!(&metadata.arguments, ArgumentValue::Mapping(entries) if entries.is_empty()));
}
