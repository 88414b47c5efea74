//! The header of a texture asset read in one go: what every asset starts
//! with, and the texture sub-header behind it.

use crate::arguments::{map_of, ArgumentValue};
use crate::bytes::{read_u32_le, u32_le};
use crate::error::BuildError;
use crate::metadata::{
    arguments_at, field_bytes, field_end_at, header_len, is_whole_header, merged_file_count,
    path_at, paths_fit, type_tag_at, Metadata, PREFIX_LEN,
};
use crate::text::utf8_lossy;
use crate::texture::header::{byte_size, image_at, DDSFormat, Image, ImageModel};
use vstd::prelude::*;

verus! {

/// One of the paths of the files merged into an asset.
#[derive(Debug)]
pub struct HeaderPath {
    /// The number of bytes that the header declares for the path.
    pub length: u32,
    pub path: String,
}

/// The header of a texture asset.
#[derive(Debug)]
pub struct Header {
    pub merged_file_count: u32,
    pub file_paths: Vec<HeaderPath>,
    pub arguments: ArgumentValue,
    pub file_type: u32,
    pub f_cache_image_count: u8,
    pub f_cache_image_offsets: Vec<u32>,
    pub dds_format: DDSFormat,
    pub dds_width_px: u32,
    pub dds_height_px: u32,
    pub dds_size: u128,
}

impl Header {
    /// Whether `self` is what the header in `data` and the texture
    /// sub-header `image` behind it say.
    pub open spec fn describes(&self, data: Seq<u8>, image: ImageModel) -> bool {
        &&& self.merged_file_count == merged_file_count(data)
        &&& self.file_paths@.len() == merged_file_count(data)
        &&& forall|i: int|
            0 <= i < self.file_paths@.len() ==> (#[trigger] self.file_paths@[i]).length == u32_le(
                data,
                path_at(data, i as nat),
            ) && self.file_paths@[i].path@ == utf8_lossy(
                field_bytes(data, path_at(data, i as nat)),
            )
        &&& self.arguments@ == map_of(utf8_lossy(field_bytes(data, arguments_at(data))))
        &&& self.file_type == u32_le(data, type_tag_at(data))
        &&& self.f_cache_image_count == image.f_cache_image_count
        &&& self.f_cache_image_offsets@ == image.f_cache_image_offsets
        &&& self.dds_format == image.format
        &&& self.dds_width_px == image.width
        &&& self.dds_height_px == image.height
        &&& self.dds_size == byte_size(image.width, image.height, image.format)
    }
}

/// What reading the header of a texture asset gives: a cut header is
/// truncated; behind a whole header, the texture sub-header decides.
pub open spec fn header_outcome(data: Seq<u8>) -> Result<ImageModel, BuildError> {
    if !is_whole_header(data) {
        Err(BuildError::Truncated)
    } else {
        image_at(data, header_len(data))
    }
}

/// Reads the header of a texture asset: the paths, the arguments and the
/// type tag, then the format, the sub-offsets and the size of the texture.
pub fn read_header(data: &[u8]) -> (header: Result<Header, BuildError>)
    ensures
        match header {
            Ok(header) => header_outcome(data@) is Ok && header.describes(
                data@,
                header_outcome(data@)->Ok_0,
            ),
            Err(error) => header_outcome(data@) == Err::<ImageModel, BuildError>(error),
        },
{
    let metadata = match Metadata::decode(data) {
        Ok(metadata) => metadata,
        Err(_) => { return Err(BuildError::Truncated); },
    };
    let image = match Image::from_with_header(data, &metadata) {
        Ok(image) => image,
        Err(error) => { return Err(error); },
    };
    let count = metadata.file_paths.len();
    let mut file_paths: Vec<HeaderPath> = Vec::new();
    let mut at: usize = PREFIX_LEN + 4;
    let mut index: usize = 0;
    while index < count
        invariant
            0 <= index <= count,
            count == merged_file_count(data@),
            count == metadata.file_paths@.len(),
            metadata.describes(data@),
            paths_fit(data@, count as nat),
            at == path_at(data@, index as nat),
            file_paths@.len() == index,
            forall|i: int|
                0 <= i < index ==> (#[trigger] file_paths@[i]).length == u32_le(
                    data@,
                    path_at(data@, i as nat),
                ) && file_paths@[i].path@ == utf8_lossy(
                    field_bytes(data@, path_at(data@, i as nat)),
                ),
        decreases count - index,
    {
        proof {
            lemma_path_fits(data@, index as nat, count as nat);
        }
        let length = read_u32_le(data, at).unwrap();
        let end = field_end_at(data, at).unwrap();
        file_paths.push(HeaderPath { length, path: metadata.file_paths[index].clone() });
        at = end;
        index += 1;
    }
    let dds_size = image.size();
    Ok(
        Header {
            merged_file_count: count as u32,
            file_paths,
            arguments: metadata.arguments,
            file_type: metadata.raw_type,
            f_cache_image_count: image.f_cache_image_count,
            f_cache_image_offsets: image.f_cache_image_offsets,
            dds_format: image.format,
            dds_width_px: image.width,
            dds_height_px: image.height,
            dds_size,
        },
    )
}

proof fn lemma_path_fits(data: Seq<u8>, index: nat, count: nat)
    requires
        index < count,
        paths_fit(data, count),
    ensures
        crate::metadata::field_fits(data, path_at(data, index)),
    decreases count,
{
    if index + 1 < count {
        lemma_path_fits(data, index, (count - 1) as nat);
    }
}

} // verus!
