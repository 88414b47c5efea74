//! The header that every asset starts with: an opaque prefix, the paths of
//! the files merged into the asset, its arguments, and the tag of its type.

use crate::arguments::{map_of, parse_arguments, ArgumentModel, ArgumentValue};
use crate::bytes::{read_u32_le, u32_le};
use crate::error::Truncated;
use crate::text::{lossy_text, utf8_lossy};
use vstd::prelude::*;

verus! {

/// The number of bytes before the count of merged files.
pub const PREFIX_LEN: usize = 16;

/// The type tags of audio assets.
pub struct AudioType(pub u32);

impl AudioType {
    pub const AUDIO_139: u32 = 0x8B;
}

/// The type tags of music assets.
pub struct MusicType(pub u32);

impl MusicType {
    pub const MUSIC_139: u32 = 0x8B;
}

/// The type tags of texture assets.
#[derive(Debug, PartialEq, Eq, Clone, Copy)]
pub struct TextureType(pub u32);

impl TextureType {
    pub const DIFFUSE_EMISSION_TINT: u32 = 0xA3;

    pub const BILLBOARD_SPRITEMAP_DIFFUSE: u32 = 0xA4;

    pub const BILLBOARD_SPRITEMAP_NORMAL: u32 = 0xA5;

    pub const ROUGHNESS: u32 = 0xA7;

    pub const SKYBOX: u32 = 0xAB;

    pub const TEXTURE_174: u32 = 0xAE;

    pub const TEXTURE_176: u32 = 0xB0;

    pub const CUBEMAP: u32 = 0xB1;

    pub const NORMAL_MAP: u32 = 0xB8;

    pub const PACKMAP: u32 = 0xBC;

    pub const TEXTURE_194: u32 = 0xC2;

    pub const DETAILSPACK: u32 = 0xC3;
}

/// What kind of asset a header announces.
#[derive(Debug, PartialEq, Eq, Clone, Copy, Structural)]
pub enum FileType {
    Audio,
    Texture,
    Unknown,
}

/// Whether `tag` is the type tag of an audio asset.
pub open spec fn is_audio_tag(tag: u32) -> bool {
    tag == 0x8B
}

/// Whether `tag` is the type tag of a texture asset.
pub open spec fn is_texture_tag(tag: u32) -> bool {
    ||| tag == 0xA3
    ||| tag == 0xA4
    ||| tag == 0xA5
    ||| tag == 0xA7
    ||| tag == 0xAB
    ||| tag == 0xAE
    ||| tag == 0xB0
    ||| tag == 0xB1
    ||| tag == 0xB8
    ||| tag == 0xBC
    ||| tag == 0xC2
    ||| tag == 0xC3
}

/// The kind of asset that `tag` announces.
pub open spec fn file_type_of(tag: u32) -> FileType {
    if is_audio_tag(tag) {
        FileType::Audio
    } else if is_texture_tag(tag) {
        FileType::Texture
    } else {
        FileType::Unknown
    }
}

/// No tag announces both an audio asset and a texture.
pub proof fn lemma_tag_sets_disjoint(tag: u32)
    ensures
        !(is_audio_tag(tag) && is_texture_tag(tag)),
{
}

impl From<u32> for FileType {
    fn from(tag: u32) -> (kind: FileType) {
        if tag == AudioType::AUDIO_139 {
            FileType::Audio
        } else if tag == TextureType::DIFFUSE_EMISSION_TINT || tag
            == TextureType::BILLBOARD_SPRITEMAP_DIFFUSE || tag
            == TextureType::BILLBOARD_SPRITEMAP_NORMAL || tag == TextureType::ROUGHNESS || tag
            == TextureType::SKYBOX || tag == TextureType::TEXTURE_174 || tag
            == TextureType::TEXTURE_176 || tag == TextureType::CUBEMAP || tag
            == TextureType::NORMAL_MAP || tag == TextureType::PACKMAP || tag
            == TextureType::TEXTURE_194 || tag == TextureType::DETAILSPACK {
            FileType::Texture
        } else {
            FileType::Unknown
        }
    }
}

impl vstd::std_specs::convert::FromSpecImpl<u32> for FileType {
    open spec fn obeys_from_spec() -> bool {
        true
    }

    open spec fn from_spec(tag: u32) -> FileType {
        file_type_of(tag)
    }
}

/// The offset just past the length-prefixed field that starts at `at`.
pub open spec fn field_end(data: Seq<u8>, at: int) -> int {
    at + 4 + u32_le(data, at)
}

/// Whether the length-prefixed field that starts at `at` lies inside `data`.
pub open spec fn field_fits(data: Seq<u8>, at: int) -> bool {
    0 <= at && at + 4 <= data.len() && field_end(data, at) <= data.len()
}

/// The bytes of the length-prefixed field that starts at `at`, without the
/// prefix.
pub open spec fn field_bytes(data: Seq<u8>, at: int) -> Seq<u8> {
    data.subrange(at + 4, field_end(data, at))
}

/// The number of merged files that `data` declares.
pub open spec fn merged_file_count(data: Seq<u8>) -> nat {
    u32_le(data, PREFIX_LEN as int) as nat
}

/// The offset of the path with the given index: each path follows the one
/// before it, and the first follows the count of merged files.
pub open spec fn path_at(data: Seq<u8>, index: nat) -> int
    decreases index,
{
    if index == 0 {
        PREFIX_LEN as int + 4
    } else {
        field_end(data, path_at(data, (index - 1) as nat))
    }
}

/// Whether the first `count` paths lie inside `data`.
pub open spec fn paths_fit(data: Seq<u8>, count: nat) -> bool
    decreases count,
{
    count == 0 || (paths_fit(data, (count - 1) as nat) && field_fits(
        data,
        path_at(data, (count - 1) as nat),
    ))
}

/// The offset of the arguments, which follow the last path.
pub open spec fn arguments_at(data: Seq<u8>) -> int {
    path_at(data, merged_file_count(data))
}

/// The offset of the type tag. It follows the arguments, and one more byte
/// if the arguments are not empty.
pub open spec fn type_tag_at(data: Seq<u8>) -> int {
    let end = field_end(data, arguments_at(data));
    if u32_le(data, arguments_at(data)) > 0 {
        end + 1
    } else {
        end
    }
}

/// The length of the header: the offset just past the type tag.
pub open spec fn header_len(data: Seq<u8>) -> int {
    type_tag_at(data) + 4
}

/// Whether `data` holds a whole header.
pub open spec fn is_whole_header(data: Seq<u8>) -> bool {
    &&& PREFIX_LEN + 4 <= data.len()
    &&& paths_fit(data, merged_file_count(data))
    &&& field_fits(data, arguments_at(data))
    &&& header_len(data) <= data.len()
}

/// The decoded header of an asset.
#[derive(Debug)]
pub struct Metadata {
    /// The paths of the files merged into the asset, in the order of the header.
    pub file_paths: Vec<String>,
    /// The arguments of the asset: a map.
    pub arguments: ArgumentValue,
    /// The kind that the type tag announces.
    pub file_type: FileType,
    /// The type tag as the header holds it.
    pub raw_type: u32,
    /// The length of the header in bytes. What is particular to the kind of
    /// the asset starts at this offset.
    pub size: usize,
}

impl Default for Metadata {
    /// The header of nothing: no paths, no arguments, and an unknown kind.
    fn default() -> (metadata: Self)
        ensures
            metadata.file_paths@.len() == 0,
            metadata.arguments@ == ArgumentModel::Mapping(Seq::empty()),
            metadata.file_type == FileType::Unknown,
            metadata.raw_type == 0,
            metadata.size == 0,
    {
        let metadata = Self {
            file_paths: Vec::new(),
            arguments: ArgumentValue::Mapping(Vec::new()),
            file_type: FileType::Unknown,
            raw_type: 0,
            size: 0,
        };
        assert(metadata.arguments@->Mapping_0 =~= Seq::empty());
        metadata
    }
}

impl Metadata {
    /// Whether `self` is what the header in `data` says.
    pub open spec fn describes(&self, data: Seq<u8>) -> bool {
        &&& self.size == header_len(data)
        &&& self.raw_type == u32_le(data, type_tag_at(data))
        &&& self.file_type == file_type_of(self.raw_type)
        &&& self.file_paths@.len() == merged_file_count(data)
        &&& forall|i: int|
            0 <= i < self.file_paths@.len() ==> (#[trigger] self.file_paths@[i])@ == utf8_lossy(
                field_bytes(data, path_at(data, i as nat)),
            )
        &&& self.arguments@ == map_of(utf8_lossy(field_bytes(data, arguments_at(data))))
    }

    /// Whether a container can be built from an asset of this kind.
    pub fn is_supported(&self) -> (supported: bool)
        ensures
            supported == (self.file_type != FileType::Unknown),
    {
        match self.file_type {
            FileType::Unknown => false,
            _ => true,
        }
    }

    /// Decodes the header at the start of `data`. The decoding fails if and
    /// only if the header does not lie whole inside `data`.
    pub fn decode(data: &[u8]) -> (decoded: Result<Metadata, Truncated>)
        ensures
            decoded is Ok <==> is_whole_header(data@),
            decoded is Ok ==> decoded->Ok_0.describes(data@),
            decoded is Ok ==> decoded->Ok_0.size <= data@.len(),
    {
        let count = match read_u32_le(data, PREFIX_LEN) {
            Some(count) => count,
            None => { return Err(Truncated); },
        };
        let mut file_paths: Vec<String> = Vec::new();
        let mut at: usize = PREFIX_LEN + 4;
        let mut index: u32 = 0;
        while index < count
            invariant
                0 <= index <= count,
                count == merged_file_count(data@),
                PREFIX_LEN + 4 <= at <= data@.len(),
                at == path_at(data@, index as nat),
                paths_fit(data@, index as nat),
                file_paths@.len() == index,
                forall|i: int|
                    0 <= i < index ==> (#[trigger] file_paths@[i])@ == utf8_lossy(
                        field_bytes(data@, path_at(data@, i as nat)),
                    ),
            decreases count - index,
        {
            let end = match field_end_at(data, at) {
                Some(end) => end,
                None => {
                    proof {
                        if paths_fit(data@, count as nat) {
                            lemma_paths_fit_prefix(data@, index as nat + 1, count as nat);
                        }
                    }
                    return Err(Truncated);
                },
            };
            file_paths.push(lossy_text(vstd::slice::slice_subrange(data, at + 4, end)));
            at = end;
            index += 1;
        }
        let end = match field_end_at(data, at) {
            Some(end) => end,
            None => { return Err(Truncated); },
        };
        let raw_arguments = lossy_text(vstd::slice::slice_subrange(data, at + 4, end));
        let type_at: usize = if end > at + 4 {
            if end == data.len() {
                return Err(Truncated);
            }
            end + 1
        } else {
            end
        };
        let raw_type = match read_u32_le(data, type_at) {
            Some(raw_type) => raw_type,
            None => { return Err(Truncated); },
        };
        assert(type_at + 4 <= data.len());
        let arguments = parse_arguments(raw_arguments);
        Ok(
            Metadata {
                file_paths,
                arguments,
                file_type: FileType::from(raw_type),
                raw_type,
                size: type_at + 4,
            },
        )
    }
}

/// The end of the length-prefixed field at `at`, if the field lies inside `data`.
pub(crate) fn field_end_at(data: &[u8], at: usize) -> (end: Option<usize>)
    ensures
        end is Some <==> field_fits(data@, at as int),
        end is Some ==> end->0 == field_end(data@, at as int) && at + 4 <= end->0 <= data@.len(),
{
    let len = match read_u32_le(data, at) {
        Some(len) => len,
        None => { return None; },
    };
    if len as usize > data.len() - (at + 4) {
        return None;
    }
    Some(at + 4 + len as usize)
}

proof fn lemma_paths_fit_prefix(data: Seq<u8>, fewer: nat, count: nat)
    requires
        fewer <= count,
        paths_fit(data, count),
    ensures
        paths_fit(data, fewer),
    decreases count,
{
    if fewer < count {
        lemma_paths_fit_prefix(data, fewer, (count - 1) as nat);
    }
}

/// The sum of the lengths that the first `count` paths declare.
pub open spec fn declared_path_bytes(data: Seq<u8>, count: nat) -> int
    decreases count,
{
    if count == 0 {
        0
    } else {
        declared_path_bytes(data, (count - 1) as nat) + u32_le(
            data,
            path_at(data, (count - 1) as nat),
        )
    }
}

/// A path starts after the prefix, the count, and the length prefixes and
/// declared lengths of the paths before it.
pub proof fn lemma_path_at_by_declared_sizes(data: Seq<u8>, index: nat)
    ensures
        path_at(data, index) == PREFIX_LEN + 4 + 4 * index + declared_path_bytes(data, index),
    decreases index,
{
    if index > 0 {
        lemma_path_at_by_declared_sizes(data, (index - 1) as nat);
    }
}

/// The length of a header is the sum of what its layout declares: the prefix,
/// the count, a length prefix and the declared length for each path and for
/// the arguments, the byte that ends arguments that are not empty, and the
/// type tag.
pub proof fn lemma_header_len_by_declared_sizes(data: Seq<u8>)
    ensures
        header_len(data) == PREFIX_LEN + 4 + 4 * merged_file_count(data) + declared_path_bytes(
            data,
            merged_file_count(data),
        ) + 4 + u32_le(data, arguments_at(data)) + (if u32_le(data, arguments_at(data)) > 0 {
            1int
        } else {
            0int
        }) + 4,
{
    lemma_path_at_by_declared_sizes(data, merged_file_count(data));
}

/// Two headers that declare the same number of paths, the same length for
/// each path and the same length for the arguments are equally long,
/// whatever the paths and the arguments hold.
pub proof fn lemma_header_len_ignores_contents(a: Seq<u8>, b: Seq<u8>)
    requires
        merged_file_count(a) == merged_file_count(b),
        forall|i: nat|
            i < merged_file_count(a) ==> u32_le(a, #[trigger] path_at(a, i)) == u32_le(
                b,
                path_at(b, i),
            ),
        u32_le(a, arguments_at(a)) == u32_le(b, arguments_at(b)),
    ensures
        header_len(a) == header_len(b),
{
    lemma_same_declared_sizes(a, b, merged_file_count(a));
    lemma_header_len_by_declared_sizes(a);
    lemma_header_len_by_declared_sizes(b);
}

proof fn lemma_same_declared_sizes(a: Seq<u8>, b: Seq<u8>, count: nat)
    requires
        forall|i: nat|
            i < count ==> u32_le(a, #[trigger] path_at(a, i)) == u32_le(b, path_at(b, i)),
    ensures
        declared_path_bytes(a, count) == declared_path_bytes(b, count),
    decreases count,
{
    if count > 0 {
        lemma_same_declared_sizes(a, b, (count - 1) as nat);
        assert(u32_le(a, path_at(a, (count - 1) as nat)) == u32_le(
            b,
            path_at(b, (count - 1) as nat),
        ));
    }
}

} // verus!
