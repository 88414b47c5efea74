use lotus_extract::action::{Action, Event, Key, KeyInput};
use lotus_extract::error::BuildError;
use lotus_extract::extract::{extract_file, output_file_name, Batch};
use lotus_extract::partition::{Extension, Partitions};
use lotus_extract::tree::{collect_files, Node, NodeKind};
use lotus_extract::extract::{payloads_needed, Payloads};
use lotus_extract::texture::header::PixelSource;
use lotus_extract::explorer::{navigate, Navigation};
use lotus_extract::shell::command::find::{name_matches, parse_kind};
use lotus_extract::shell::error::{MissingArgument, PathNotFound};
use lotus_extract::shell::handler::{Handler, Request};
use lotus_extract::texture::header::DDSFormat;
use lotus_extract::utils::cache::read_header;


fn header_with_tag(tag: u32) -> Vec<u8> {
    let mut data = vec![0u8; 16];
    data.extend_from_slice(&0u32.to_le_bytes());
    data.extend_from_slice(&0u32.to_le_bytes());
    data.extend_from_slice(&tag.to_le_bytes());
    data
}

fn adpcm_asset(size: u32) -> Vec<u8> {
    let mut data = header_with_tag(0x8B);
    data.extend_from_slice(&5u32.to_le_bytes());
    data.extend_from_slice(&[0; 28]);
    data.extend_from_slice(&48000u32.to_le_bytes());
    data.extend_from_slice(&[16, 2]);
    data.extend_from_slice(&[0; 4]);
    data.extend_from_slice(&96000u32.to_le_bytes());
    data.extend_from_slice(&70u16.to_le_bytes());
    data.extend_from_slice(&128u16.to_le_bytes());
    data.extend_from_slice(&[0; 12]);
    data.extend_from_slice(&size.to_le_bytes());
    data
}

fn texture_asset() -> Vec<u8> {
    let mut data = header_with_tag(0xB8);
    data.extend_from_slice(&[0, 0, 0, 0x01]);
    data.extend_from_slice(&0u32.to_le_bytes());
    data.extend_from_slice(&1u16.to_le_bytes());
    data.extend_from_slice(&1u16.to_le_bytes());
    data.extend_from_slice(&[0; 4]);
    data.extend_from_slice(&4u32.to_le_bytes());
    data
}

fn b_only(len: usize) -> Partitions {
    Partitions { f: None, b: Some(vec![9u8; len]), f_fragment: None }
}

fn file(name: &str) -> Node {
    Node { name: name.to_string(), kind: NodeKind::File, children: Vec::new() }
}

fn directory(name: &str, children: Vec<Node>) -> Node {
    Node { name: name.to_string(), kind: NodeKind::Directory, children }
}

#[test]
fn one_asset_goes_to_the_builder_of_its_kind() {
    let (wav, extension) = extract_file(&adpcm_asset(10), &b_only(10), 1).unwrap();
    assert_eq!(extension, Extension::Wav);
    assert_eq!(wav.len(), 88);
    let (dds, extension) = extract_file(&texture_asset(), &b_only(8), 1).unwrap();
    assert_eq!(extension, Extension::Dds);
    assert_eq!(extension.as_str(), "dds");
    assert_eq!(dds.len(), 4 + 124 + 8);
    assert_eq!(extract_file(&header_with_tag(0x77), &b_only(8), 1).err(), Some(BuildError::UnsupportedAsset));
    assert_eq!(extract_file(&header_with_tag(0x8B)[..27], &b_only(8), 1).err(), Some(BuildError::Truncated));
    assert_eq!(extract_file(&header_with_tag(0x8B), &b_only(8), 1).err(), Some(BuildError::Truncated));
    assert_eq!(extract_file(&adpcm_asset(10), &b_only(9), 1).err(), Some(BuildError::MissingPartition));
    assert_eq!(BuildError::Truncated.message(), "Header is truncated");
    assert_eq!(BuildError::UnknownFormat.message(), "Unknown format");
    assert_eq!(BuildError::MissingPartition.message(), "Missing partition");
    assert_eq!(BuildError::UnsupportedAsset.message(), "File is not supported");
}

#[test]
fn a_tree_with_one_unknown_asset_among_five_is_extracted_to_the_end() {
    let tree = directory(
        "",
        vec![
            file("a.wav"),
            directory("sub", vec![file("c.png"), file("d.bin"), directory("deep", vec![file("e.wav")])]),
            file("b.png"),
        ],
    );
    let files = collect_files(&tree, "/", true);
    assert_eq!(files, vec!["/a.wav", "/b.png", "/sub/c.png", "/sub/d.bin", "/sub/deep/e.wav"]);
    let mut batch = Batch::new(files.len());
    let mut visited = Vec::new();
    let mut progress = vec![batch.progress()];
    while let Some(index) = batch.next(false) {
        let path = files[index].as_str();
        visited.push(path.to_string());
        let built = if path.ends_with(".wav") {
            extract_file(&adpcm_asset(10), &b_only(10), 1)
        } else if path.ends_with(".png") {
            extract_file(&texture_asset(), &b_only(8), 1)
        } else {
            extract_file(&header_with_tag(0x77), &b_only(8), 1)
        };
        if path.ends_with(".bin") {
            assert_eq!(built.as_ref().err(), Some(&BuildError::UnsupportedAsset));
        }
        batch.record(built.is_ok());
        progress.push(batch.progress());
    }
    assert_eq!(visited, files);
    assert_eq!(batch.completed, 5);
    assert_eq!(batch.succeeded(), 4);
    assert_eq!(batch.failed, 1);
    assert!(!batch.cancelled);
    assert!(batch.is_finished());
    assert_eq!(progress, vec![(0, 5), (1, 5), (2, 5), (3, 5), (4, 5), (5, 5)]);
}

#[test]
fn a_cancelled_batch_stops_before_the_next_file() {
    let mut batch = Batch::new(3);
    assert_eq!(batch.next(false), Some(0));
    batch.record(true);
    assert_eq!(batch.next(true), None);
    assert!(batch.cancelled);
    assert_eq!(batch.next(false), None);
    assert_eq!(batch.progress(), (1, 3));
    assert_eq!(batch.succeeded(), 1);
    assert!(batch.is_finished());
    let mut empty = Batch::new(0);
    assert_eq!(empty.next(false), None);
    assert!(empty.is_finished());
    assert!(!empty.cancelled);
}

#[test]
fn files_of_a_directory_alone() {
    let tree = directory("x", vec![directory("sub", vec![file("c")]), file("a"), file("b")]);
    assert_eq!(collect_files(&tree, "/x/", false), vec!["/x/a", "/x/b"]);
    assert_eq!(collect_files(&tree, "/x/", true), vec!["/x/a", "/x/b", "/x/sub/c"]);
    assert!(collect_files(&directory("e", Vec::new()), "/e/", true).is_empty());
    assert!(collect_files(&file("f"), "/", true).is_empty());
}

#[test]
fn output_names_get_the_extension_of_the_container() {
    assert_eq!(output_file_name("a.png", Extension::Dds), "a.dds");
    assert_eq!(output_file_name("a.b.png", Extension::Dds), "a.b.dds");
    assert_eq!(output_file_name("a.tga", Extension::Dds), "a.tga.dds");
    assert_eq!(output_file_name("png", Extension::Dds), "png.dds");
    assert_eq!(output_file_name(".png", Extension::Dds), ".dds");
    assert_eq!(output_file_name("", Extension::Dds), ".dds");
    assert_eq!(output_file_name("a.wav", Extension::Wav), "a.wav");
    assert_eq!(output_file_name("a.wav", Extension::Opus), "a.opus");
    assert_eq!(output_file_name("a.b.wav", Extension::Opus), "a.b.opus");
    assert_eq!(output_file_name("noext", Extension::Wav), "noext.wav");
    assert_eq!(output_file_name(".hidden", Extension::Wav), ".hidden.wav");
    assert_eq!(output_file_name("a.", Extension::Wav), "a.wav");
    assert_eq!(output_file_name("é.wav", Extension::Opus), "é.opus");
    for name in ["a.wav", "a.b.wav", "noext", ".hidden", "a.", "x.y.z"] {
        let mut path = std::path::PathBuf::from(name);
        path.set_extension("opus");
        assert_eq!(output_file_name(name, Extension::Opus), path.to_str().unwrap());
    }
}

#[test]
fn keys_ask_for_actions() {
    let cases = [
        (Key::Char('j'), Action::NavigateDown, KeyInput::Down),
        (Key::Down, Action::NavigateDown, KeyInput::Down),
        (Key::Char('k'), Action::NavigateUp, KeyInput::Up),
        (Key::Up, Action::NavigateUp, KeyInput::Up),
        (Key::Char('h'), Action::NavigateOut, KeyInput::Left),
        (Key::Left, Action::NavigateOut, KeyInput::Left),
        (Key::Backspace, Action::NavigateOut, KeyInput::Left),
        (Key::Char('l'), Action::NavigateIn, KeyInput::Right),
        (Key::Right, Action::NavigateIn, KeyInput::Right),
        (Key::Enter, Action::NavigateIn, KeyInput::Right),
        (Key::Char(' '), Action::ExtractToggle, KeyInput::Space),
        (Key::Char('r'), Action::RecursiveModeToggle, KeyInput::Idle),
        (Key::Char('R'), Action::RecursiveModeToggle, KeyInput::Idle),
        (Key::Char('q'), Action::Quit, KeyInput::Quit),
        (Key::Char('Q'), Action::Quit, KeyInput::Quit),
        (Key::Esc, Action::Quit, KeyInput::Quit),
        (Key::Char('x'), Action::Idle, KeyInput::Idle),
        (Key::Other, Action::Idle, KeyInput::Idle),
    ];
    for (key, action, input) in cases {
        assert_eq!(Action::from_event(&Event::Key(key)), action);
        assert_eq!(Action::from(&Event::Key(key)), action);
        assert_eq!(KeyInput::from_event(&Event::Key(key)), input);
        assert_eq!(KeyInput::from(&Event::Key(key)), input);
    }
    assert_eq!(Action::from_event(&Event::Quit), Action::Quit);
    assert_eq!(Action::from_event(&Event::Tick), Action::Tick);
    assert_eq!(Action::from_event(&Event::Render), Action::Render);
    assert_eq!(Action::from_event(&Event::Other), Action::Idle);
    assert_eq!(KeyInput::from_event(&Event::Quit), KeyInput::Idle);
    assert_eq!(KeyInput::from_event(&Event::Tick), KeyInput::Idle);
}

#[test]
fn payloads_follow_the_kind_of_the_asset() {
    assert_eq!(payloads_needed(&adpcm_asset(10)), Ok(Payloads::Samples));
    assert_eq!(
        payloads_needed(&texture_asset()),
        Ok(Payloads::Pixels { source: PixelSource::TailOfB, size: 8 })
    );
    assert_eq!(payloads_needed(&header_with_tag(0x77)), Err(BuildError::UnsupportedAsset));
    assert_eq!(payloads_needed(&header_with_tag(0xA3)), Err(BuildError::Truncated));
    assert_eq!(payloads_needed(&[]), Err(BuildError::Truncated));
}

#[test]
fn selection_moves_round_the_entries() {
    let kinds = [NodeKind::Directory, NodeKind::Directory, NodeKind::Directory, NodeKind::File];
    assert_eq!(navigate(0, &kinds, true, &Action::NavigateUp), Navigation::Select(3));
    assert_eq!(navigate(3, &kinds, true, &Action::NavigateUp), Navigation::Select(2));
    assert_eq!(navigate(3, &kinds, true, &Action::NavigateDown), Navigation::Select(0));
    assert_eq!(navigate(1, &kinds, true, &Action::NavigateDown), Navigation::Select(2));
    assert_eq!(navigate(2, &kinds, true, &Action::NavigateOut), Navigation::Leave);
    assert_eq!(navigate(2, &kinds, false, &Action::NavigateOut), Navigation::Select(2));
    assert_eq!(navigate(0, &kinds, true, &Action::NavigateIn), Navigation::Select(0));
    assert_eq!(navigate(1, &kinds, true, &Action::NavigateIn), Navigation::Enter(1));
    assert_eq!(navigate(3, &kinds, true, &Action::NavigateIn), Navigation::Select(3));
    assert_eq!(navigate(2, &kinds, true, &Action::Tick), Navigation::Select(2));
    assert_eq!(navigate(0, &kinds[..1], false, &Action::NavigateUp), Navigation::Select(0));
    assert_eq!(navigate(0, &kinds[..1], false, &Action::NavigateDown), Navigation::Select(0));
}

#[test]
fn names_fit_patterns_with_stars() {
    assert!(name_matches("texture.png", "*.png"));
    assert!(name_matches("texture.png", "tex*"));
    assert!(name_matches("texture.png", "tex*png"));
    assert!(name_matches("texture.png", "*"));
    assert!(name_matches("texture.png", "*ture*"));
    assert!(name_matches("texture.png", "texture.png"));
    assert!(name_matches("ababa", "aba"));
    assert!(name_matches("", ""));
    assert!(name_matches("", "*"));
    assert!(!name_matches("texture.png", "*.wav"));
    assert!(!name_matches("texture.png", "ex*"));
    assert!(!name_matches("texture.png", "tex*pn"));
    assert!(!name_matches("texture.png", "t*z*g"));
    assert!(!name_matches("abc", "abcd"));
    assert!(!name_matches("", "a"));
    assert!(name_matches("abc", "a*c"));
    assert!(name_matches("ab", "ab*ab"));
    for (name, pattern) in [("texture.png", "*.png"), ("a", "*a*"), ("abc", "c*a"), ("x.y.z", "x*y*z"), ("x.y.z", "*z*"), ("aaa", "a*a*a*a")] {
        let parts: Vec<&str> = pattern.split('*').collect();
        let mut expected = true;
        for (i, part) in parts.iter().enumerate() {
            if i == 0 && !name.starts_with(part) {
                expected = false;
                break;
            } else if i == parts.len() - 1 && !name.ends_with(part) {
                expected = false;
                break;
            } else if !name.contains(part) {
                expected = false;
                break;
            }
        }
        assert_eq!(name_matches(name, pattern), expected, "{:?} against {:?}", name, pattern);
    }
    assert_eq!(parse_kind("file"), Some(NodeKind::File));
    assert_eq!(parse_kind("directory"), Some(NodeKind::Directory));
    assert_eq!(parse_kind("File"), None);
    assert_eq!(parse_kind(""), None);
}

#[test]
fn lines_ask_the_shell_for_what_their_first_word_says() {
    let line = |text: &str| text.split_whitespace().map(String::from).collect::<Vec<String>>();
    assert_eq!(Handler().classify(&line("")), Request::Nothing);
    assert_eq!(Handler().classify(&line("quit")), Request::Quit);
    assert_eq!(Handler().classify(&line("exit now")), Request::Quit);
    assert_eq!(Handler().classify(&line("help")), Request::Help);
    assert_eq!(Handler().classify(&line("ls /")), Request::Run);
    assert_eq!(Handler().classify(&line("Quit")), Request::Run);
    assert_eq!(PathNotFound.message(), "Path not found");
    assert_eq!(MissingArgument.message(), "Missing argument");
}

#[test]
fn a_texture_header_is_read_in_one_go() {
    let mut data = vec![0u8; 16];
    data.extend_from_slice(&2u32.to_le_bytes());
    data.extend_from_slice(&3u32.to_le_bytes());
    data.extend_from_slice(b"/ab");
    data.extend_from_slice(&1u32.to_le_bytes());
    data.extend_from_slice(b"\xff");
    data.extend_from_slice(&4u32.to_le_bytes());
    data.extend_from_slice(b"k=1\n\0");
    data.extend_from_slice(&0xB8u32.to_le_bytes());
    data.extend_from_slice(&[0, 2, 0, 0x01]);
    data.extend_from_slice(&1u32.to_le_bytes());
    data.extend_from_slice(&77u32.to_le_bytes());
    data.extend_from_slice(&1u16.to_le_bytes());
    data.extend_from_slice(&2u16.to_le_bytes());
    data.extend_from_slice(&[0; 4]);
    data.extend_from_slice(&64u32.to_le_bytes());
    let header = read_header(&data).unwrap();
    assert_eq!(header.merged_file_count, 2);
    assert_eq!(header.file_paths[0].length, 3);
    assert_eq!(header.file_paths[0].path, "/ab");
    assert_eq!(header.file_paths[1].length, 1);
    assert_eq!(header.file_paths[1].path, "\u{fffd}");
    assert_eq!(header.file_type, 0xB8);
    assert_eq!(header.f_cache_image_count, 2);
    assert_eq!(header.f_cache_image_offsets, vec![77]);
    assert_eq!(header.dds_format, DDSFormat::BC1_UNORM);
    assert_eq!(header.dds_width_px, 32);
    assert_eq!(header.dds_height_px, 64);
    assert_eq!(header.dds_size, 8 * 16 * 8);
    assert!(header.arguments.get("k").is_some());
    assert_eq!(read_header(&data[..data.len() - 1]).err(), Some(BuildError::Truncated));
    assert_eq!(read_header(&data[..30]).err(), Some(BuildError::Truncated));
    data[48] = 0x55;
    assert_eq!(read_header(&data).err(), Some(BuildError::UnknownFormat));
}
