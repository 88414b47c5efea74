//! The texture builder: from the header of an asset and the payloads in its
//! partitions to a DDS file.

use crate::bytes::{tail, tail_of};
use crate::error::BuildError;
use crate::metadata::{FileType, Metadata};
use crate::partition::{payload_of, Partitions};
use crate::texture::dds::{assemble, dds_header_of, dds_magic, write_header};
use crate::texture::header::{image_at, Image, ImageModel, PixelSource};
use vstd::prelude::*;

verus! {

/// The last `size` bytes of a payload, if there is a payload and it has as
/// many bytes.
pub open spec fn payload_tail(payload: Option<Vec<u8>>, size: int) -> Option<Seq<u8>> {
    if payload is Some && payload_of(payload).len() >= size {
        Some(tail_of(payload_of(payload), size))
    } else {
        None
    }
}

/// The pixels of a texture. A texture with mip fragments and a sub-offset
/// takes the fragment read at the located offset, which must have exactly
/// the size of the pixels; every other texture takes the end of its payload.
pub open spec fn pixels_of(image: ImageModel, partitions: Partitions) -> Option<Seq<u8>> {
    match image.source() {
        PixelSource::Fragment { .. } => if partitions.f_fragment is Some && payload_of(
            partitions.f_fragment,
        ).len() == image.size() {
            Some(payload_of(partitions.f_fragment))
        } else {
            None
        },
        PixelSource::TailOfF => payload_tail(partitions.f, image.size()),
        PixelSource::TailOfB => payload_tail(partitions.b, image.size()),
    }
}

/// The file that is built from a decoded texture sub-header: the bytes that
/// start a DDS file, the header, and the pixels.
pub open spec fn container_of(image: ImageModel, partitions: Partitions) -> Result<
    Seq<u8>,
    BuildError,
> {
    match dds_header_of(image.width, image.height, image.format) {
        None => Err(BuildError::UnknownFormat),
        Some(header) => match pixels_of(image, partitions) {
            None => Err(BuildError::MissingPartition),
            Some(pixels) => Ok(dds_magic() + header + pixels),
        },
    }
}

/// The file that is built from an asset: none unless the asset is a texture,
/// its sub-header is whole and tells a known format that a DDS header can
/// describe, and the partitions hold its pixels.
pub open spec fn texture_container(
    file_type: FileType,
    data: Seq<u8>,
    base: int,
    partitions: Partitions,
) -> Result<Seq<u8>, BuildError> {
    if file_type != FileType::Texture {
        Err(BuildError::UnsupportedAsset)
    } else {
        match image_at(data, base) {
            Ok(image) => container_of(image, partitions),
            Err(error) => Err(error),
        }
    }
}

/// Whether `built` is what `model` says.
pub open spec fn is_file(built: Result<Vec<u8>, BuildError>, model: Result<Seq<u8>, BuildError>) -> bool {
    match (built, model) {
        (Ok(file), Ok(expected)) => file@ == expected,
        (Err(error), Err(expected)) => error == expected,
        _ => false,
    }
}

fn take_tail(payload: &Option<Vec<u8>>, size: u128) -> (pixels: Option<Vec<u8>>)
    ensures
        pixels is Some <==> payload_tail(*payload, size as int) is Some,
        pixels is Some ==> pixels->0@ == payload_tail(*payload, size as int)->0,
{
    match payload {
        Some(bytes) => {
            if bytes.len() as u128 >= size {
                Some(tail(bytes.as_slice(), size as usize))
            } else {
                None
            }
        },
        None => None,
    }
}

/// Picks the pixels of a texture out of the payloads.
pub fn collect_pixels(image: &Image, partitions: &Partitions) -> (pixels: Option<Vec<u8>>)
    ensures
        pixels is Some <==> pixels_of(image@, *partitions) is Some,
        pixels is Some ==> pixels->0@ == pixels_of(image@, *partitions)->0,
{
    let size = image.size();
    match image.source() {
        PixelSource::Fragment { .. } => match &partitions.f_fragment {
            Some(fragment) => {
                if fragment.len() as u128 == size {
                    let pixels = tail(fragment.as_slice(), fragment.len());
                    assert(pixels@ =~= fragment@);
                    Some(pixels)
                } else {
                    None
                }
            },
            None => None,
        },
        PixelSource::TailOfF => take_tail(&partitions.f, size),
        PixelSource::TailOfB => take_tail(&partitions.b, size),
    }
}

/// Builds the DDS file of a texture asset. `data` holds the header that
/// `metadata` describes and the texture sub-header behind it; `partitions`
/// holds the pixels.
pub fn extract(metadata: &Metadata, data: &[u8], partitions: &Partitions) -> (built: Result<
    Vec<u8>,
    BuildError,
>)
    ensures
        is_file(
            built,
            texture_container(metadata.file_type, data@, metadata.size as int, *partitions),
        ),
{
    match metadata.file_type {
        FileType::Texture => {},
        _ => { return Err(BuildError::UnsupportedAsset); },
    }
    let image = match Image::from_with_header(data, metadata) {
        Ok(image) => image,
        Err(error) => { return Err(error); },
    };
    let header = match write_header(&image) {
        Some(header) => header,
        None => { return Err(BuildError::UnknownFormat); },
    };
    match collect_pixels(&image, partitions) {
        Some(pixels) => Ok(assemble(header.as_slice(), pixels.as_slice())),
        None => Err(BuildError::MissingPartition),
    }
}

/// The DDS file of a texture without mip fragments is the bytes that start
/// a DDS file, the header, and the last bytes of the payload in B: as many
/// as the pixels take, and never its first bytes. The texture must be one
/// that a DDS header can describe, as every texture with sides of 16384
/// pixels or less is.
pub proof fn lemma_dds_ends_with_the_tail(image: ImageModel, partitions: Partitions)
    requires
        image.f_cache_image_count == 0,
        partitions.b is Some,
        payload_of(partitions.b).len() >= image.size(),
        dds_header_of(image.width, image.height, image.format) is Some,
    ensures
        pixels_of(image, partitions) == Some(tail_of(payload_of(partitions.b), image.size())),
        container_of(image, partitions) == Ok::<Seq<u8>, BuildError>(
            dds_magic() + dds_header_of(image.width, image.height, image.format)->0 + tail_of(
                payload_of(partitions.b),
                image.size(),
            ),
        ),
        tail_of(container_of(image, partitions)->Ok_0, image.size()) == tail_of(
            payload_of(partitions.b),
            image.size(),
        ),
{
    crate::texture::header::lemma_byte_size_bound(image.width, image.height, image.format);
    let pixels = tail_of(payload_of(partitions.b), image.size());
    let header = dds_header_of(image.width, image.height, image.format)->0;
    let file = dds_magic() + header + pixels;
    assert(tail_of(file, image.size()) =~= pixels);
}

} // verus!
