//! The texture sub-header, which follows the header of a texture asset.

use crate::bytes::{read_u16_le, read_u32_le, u16_le, u32_le};
use crate::error::BuildError;
use crate::metadata::Metadata;
use vstd::prelude::*;

verus! {

/// How the pixels of a texture are stored.
#[allow(non_camel_case_types)]
#[derive(Debug, Clone, Copy, PartialEq, Eq, Structural)]
pub enum DDSFormat {
    BC1_UNORM,
    BC2_UNORM,
    BC3_UNORM,
    BC4_UNORM,
    BC5_UNORM,
    BC6H_UF16,
    BC7_UNORM,
    Uncompressed,
}

/// The format that `tag` announces, if it announces one.
pub open spec fn format_of(tag: u8) -> Option<DDSFormat> {
    if tag == 0x00 || tag == 0x01 {
        Some(DDSFormat::BC1_UNORM)
    } else if tag == 0x02 {
        Some(DDSFormat::BC2_UNORM)
    } else if tag == 0x03 {
        Some(DDSFormat::BC3_UNORM)
    } else if tag == 0x06 {
        Some(DDSFormat::BC4_UNORM)
    } else if tag == 0x07 {
        Some(DDSFormat::BC5_UNORM)
    } else if tag == 0x22 {
        Some(DDSFormat::BC6H_UF16)
    } else if tag == 0x23 {
        Some(DDSFormat::BC7_UNORM)
    } else if tag == 0x0A {
        Some(DDSFormat::Uncompressed)
    } else {
        None
    }
}

/// The code made of four characters, the first in the lowest byte.
pub open spec fn four_cc(a: char, b: char, c: char, d: char) -> u32 {
    (a as u32 + 0x100 * (b as u32) + 0x1_0000 * (c as u32) + 0x100_0000 * (d as u32)) as u32
}

impl DDSFormat {
    /// Whether the pixels are stored in compressed blocks of four by four.
    pub open spec fn is_block_compressed(&self) -> bool {
        !(*self is Uncompressed)
    }

    /// The number of bytes of a compressed block: 8 for the two narrowest
    /// formats, 16 for the others.
    pub open spec fn block_size(&self) -> int {
        match *self {
            DDSFormat::BC1_UNORM | DDSFormat::BC4_UNORM => 8,
            _ => 16,
        }
    }

    /// The number of bytes that a square of four by four pixels takes.
    pub open spec fn spec_bits_per_pixel(&self) -> int {
        match *self {
            DDSFormat::Uncompressed => 64,
            _ => self.block_size(),
        }
    }

    /// The four-character code of the format; none for pixels that are not
    /// compressed. The two newest formats share the code that announces an
    /// extended header.
    pub open spec fn spec_to_fourcc(&self) -> Option<u32> {
        match *self {
            DDSFormat::BC1_UNORM => Some(four_cc('D', 'X', 'T', '1')),
            DDSFormat::BC2_UNORM => Some(four_cc('D', 'X', 'T', '3')),
            DDSFormat::BC3_UNORM => Some(four_cc('D', 'X', 'T', '5')),
            DDSFormat::BC4_UNORM => Some(four_cc('A', 'T', 'I', '1')),
            DDSFormat::BC5_UNORM => Some(four_cc('A', 'T', 'I', '2')),
            DDSFormat::BC6H_UF16 | DDSFormat::BC7_UNORM => Some(four_cc('D', 'X', '1', '0')),
            DDSFormat::Uncompressed => None,
        }
    }

    /// The number of the format among the formats of DXGI.
    pub open spec fn spec_to_dxgi_format(&self) -> u32 {
        match *self {
            DDSFormat::BC1_UNORM => 71,
            DDSFormat::BC2_UNORM => 74,
            DDSFormat::BC3_UNORM => 77,
            DDSFormat::BC4_UNORM => 80,
            DDSFormat::BC5_UNORM => 83,
            DDSFormat::BC6H_UF16 => 95,
            DDSFormat::BC7_UNORM => 98,
            DDSFormat::Uncompressed => 28,
        }
    }

    /// The format that `tag` announces, if it announces one.
    pub fn from_tag(tag: u8) -> (format: Option<DDSFormat>)
        ensures
            format == format_of(tag),
    {
        if tag == 0x00 || tag == 0x01 {
            Some(DDSFormat::BC1_UNORM)
        } else if tag == 0x02 {
            Some(DDSFormat::BC2_UNORM)
        } else if tag == 0x03 {
            Some(DDSFormat::BC3_UNORM)
        } else if tag == 0x06 {
            Some(DDSFormat::BC4_UNORM)
        } else if tag == 0x07 {
            Some(DDSFormat::BC5_UNORM)
        } else if tag == 0x22 {
            Some(DDSFormat::BC6H_UF16)
        } else if tag == 0x23 {
            Some(DDSFormat::BC7_UNORM)
        } else if tag == 0x0A {
            Some(DDSFormat::Uncompressed)
        } else {
            None
        }
    }

    /// The number of bytes that a square of four by four pixels takes.
    pub fn bits_per_pixel(&self) -> (bits: u32)
        ensures
            bits == self.spec_bits_per_pixel(),
    {
        match self {
            DDSFormat::BC1_UNORM => 8,
            DDSFormat::BC2_UNORM => 16,
            DDSFormat::BC3_UNORM => 16,
            DDSFormat::BC4_UNORM => 8,
            DDSFormat::BC5_UNORM => 16,
            DDSFormat::BC6H_UF16 => 16,
            DDSFormat::BC7_UNORM => 16,
            DDSFormat::Uncompressed => 64,
        }
    }

    /// The number of the format among the formats of DXGI. Pixels that are
    /// not compressed count as red, green, blue and alpha in eight bits each.
    pub fn to_dxgi_format(&self) -> (code: u32)
        ensures
            code == self.spec_to_dxgi_format(),
    {
        match self {
            DDSFormat::BC1_UNORM => 71,
            DDSFormat::BC2_UNORM => 74,
            DDSFormat::BC3_UNORM => 77,
            DDSFormat::BC4_UNORM => 80,
            DDSFormat::BC5_UNORM => 83,
            DDSFormat::BC6H_UF16 => 95,
            DDSFormat::BC7_UNORM => 98,
            DDSFormat::Uncompressed => 28,
        }
    }

    /// The four-character code of the format.
    pub fn to_fourcc(&self) -> (code: Option<u32>)
        ensures
            code == self.spec_to_fourcc(),
    {
        match self {
            DDSFormat::BC1_UNORM => Some(0x31545844),
            DDSFormat::BC2_UNORM => Some(0x33545844),
            DDSFormat::BC3_UNORM => Some(0x35545844),
            DDSFormat::BC4_UNORM => Some(0x31495441),
            DDSFormat::BC5_UNORM => Some(0x32495441),
            DDSFormat::BC6H_UF16 => Some(0x30315844),
            DDSFormat::BC7_UNORM => Some(0x30315844),
            DDSFormat::Uncompressed => None,
        }
    }
}

/// The number of bytes that the pixels of a texture take: a block for every
/// square of four by four pixels, begun squares included, where the format
/// is compressed, else four bytes for every pixel.
pub open spec fn byte_size(width: u32, height: u32, format: DDSFormat) -> int {
    if format.is_block_compressed() {
        ((width + 3) / 4) * ((height + 3) / 4) * format.block_size()
    } else {
        width * height * 4
    }
}

/// The number of bytes of the pixels is not negative and fits in 67 bits.
pub proof fn lemma_byte_size_bound(width: u32, height: u32, format: DDSFormat)
    ensures
        0 <= byte_size(width, height, format) <= 0x4_0000_0000_0000_0000,
        0 <= ((width + 3) / 4) * ((height + 3) / 4) <= 0x1000_0000_0000_0000,
        0 <= width * height <= 0x1_0000_0000_0000_0000,
{
    let columns = (width + 3) / 4;
    let rows = (height + 3) / 4;
    assert(0 <= columns * rows <= 0x4000_0000 * 0x4000_0000) by (nonlinear_arith)
        requires
            0 <= columns <= 0x4000_0000,
            0 <= rows <= 0x4000_0000,
    ;
    assert(0 <= width * height <= 0x1_0000_0000 * 0x1_0000_0000) by (nonlinear_arith)
        requires
            0 <= width <= 0x1_0000_0000,
            0 <= height <= 0x1_0000_0000,
    ;
    assert(columns * rows * format.block_size() <= columns * rows * 16) by (nonlinear_arith)
        requires
            0 <= columns * rows,
            0 <= format.block_size() <= 16,
    ;
    assert(0 <= columns * rows * format.block_size()) by (nonlinear_arith)
        requires
            0 <= columns * rows,
            0 <= format.block_size(),
    ;
}

/// Computes the number of bytes that the pixels of a texture take.
pub fn dds_size(width: u32, height: u32, format: DDSFormat) -> (size: u128)
    ensures
        size == byte_size(width, height, format),
{
    proof {
        lemma_byte_size_bound(width, height, format);
    }
    match format {
        DDSFormat::Uncompressed => {
            let pixels: u128 = width as u128 * height as u128;
            pixels * 4
        },
        _ => {
            let block_size: u128 = match format {
                DDSFormat::BC1_UNORM | DDSFormat::BC4_UNORM => 8,
                _ => 16,
            };
            let columns: u128 = (width as u128 + 3) / 4;
            let rows: u128 = (height as u128 + 3) / 4;
            let blocks: u128 = columns * rows;
            assert(blocks * block_size <= blocks * 16) by (nonlinear_arith)
                requires
                    0 <= blocks,
                    0 <= block_size <= 16,
            ;
            blocks * block_size
        },
    }
}

/// The longer side of a texture stretched by the ratio of the other side to
/// it: what the shorter side measures.
pub open spec fn scaled_side(max_side_length: u32, ratio: u16, longer_ratio: u16) -> int {
    max_side_length * ratio / (longer_ratio as int)
}

/// The texture sub-header.
#[derive(Debug)]
pub struct Image {
    /// How the pixels are stored.
    pub format: DDSFormat,
    /// The number of mip fragments that the F partition holds.
    pub f_cache_image_count: u8,
    /// The sub-offsets of the mip levels in the F partition, in the order of
    /// the sub-header.
    pub f_cache_image_offsets: Vec<u32>,
    pub width_ratio: u16,
    pub height_ratio: u16,
    /// The width in pixels.
    pub width: u32,
    /// The height in pixels.
    pub height: u32,
}

/// What an [`Image`] stands for.
pub struct ImageModel {
    pub format: DDSFormat,
    pub f_cache_image_count: u8,
    pub f_cache_image_offsets: Seq<u32>,
    pub width_ratio: u16,
    pub height_ratio: u16,
    pub width: u32,
    pub height: u32,
}

impl View for Image {
    type V = ImageModel;

    open spec fn view(&self) -> ImageModel {
        ImageModel {
            format: self.format,
            f_cache_image_count: self.f_cache_image_count,
            f_cache_image_offsets: self.f_cache_image_offsets@,
            width_ratio: self.width_ratio,
            height_ratio: self.height_ratio,
            width: self.width,
            height: self.height,
        }
    }
}

/// Where the pixels of a texture come from.
#[derive(Debug, Clone, Copy, PartialEq, Eq, Structural)]
pub enum PixelSource {
    /// From the F partition, decompressed from the block boundary nearest to
    /// the given sub-offset on.
    Fragment { sub_offset: u32 },
    /// The end of the payload in the F partition.
    TailOfF,
    /// The end of the payload in the B partition.
    TailOfB,
}

impl ImageModel {
    /// The number of bytes that the pixels take.
    pub open spec fn size(&self) -> int {
        byte_size(self.width, self.height, self.format)
    }

    /// Where the pixels come from: from the F partition if it holds mip
    /// fragments, at the last sub-offset if there is one; else from the B
    /// partition.
    pub open spec fn source(&self) -> PixelSource {
        if self.f_cache_image_count > 0 {
            if self.f_cache_image_offsets.len() > 0 {
                PixelSource::Fragment { sub_offset: self.f_cache_image_offsets.last() }
            } else {
                PixelSource::TailOfF
            }
        } else {
            PixelSource::TailOfB
        }
    }
}

/// The number of bytes of the sub-header before the sub-offsets.
pub const IMAGE_FIXED_LEN: usize = 8;

/// The number of bytes of the sub-header behind the sub-offsets.
pub const IMAGE_TRAILER_LEN: usize = 12;

/// The number of sub-offsets that the sub-header at `base` declares.
pub open spec fn mip_map_count(data: Seq<u8>, base: int) -> int {
    u32_le(data, base + 4)
}

/// The offset just past the sub-offsets of the sub-header at `base`.
pub open spec fn ratios_at(data: Seq<u8>, base: int) -> int {
    base + IMAGE_FIXED_LEN + 4 * mip_map_count(data, base)
}

/// The texture sub-header that stands in `data` at `base`. Eight bytes are
/// needed to tell the format, and the whole sub-header if the format is a
/// known one; the two ratios must not both be zero. The longer side, by the
/// ratios, measures what the sub-header gives as the greatest side length,
/// and the other side is scaled by the ratios; where the ratios are equal,
/// both sides measure that length.
pub open spec fn image_at(data: Seq<u8>, base: int) -> Result<ImageModel, BuildError> {
    let at = ratios_at(data, base);
    let width_ratio = u16_le(data, at) as u16;
    let height_ratio = u16_le(data, at + 2) as u16;
    let max_side_length = u32_le(data, at + 8) as u32;
    if base + IMAGE_FIXED_LEN > data.len() {
        Err(BuildError::Truncated)
    } else if format_of(data[base + 3]) is None {
        Err(BuildError::UnknownFormat)
    } else if at + IMAGE_TRAILER_LEN > data.len() {
        Err(BuildError::Truncated)
    } else if width_ratio == 0 && height_ratio == 0 {
        Err(BuildError::UnknownFormat)
    } else {
        Ok(
            ImageModel {
                format: format_of(data[base + 3])->0,
                f_cache_image_count: data[base + 1],
                f_cache_image_offsets: Seq::new(
                    mip_map_count(data, base) as nat,
                    |i: int| u32_le(data, base + IMAGE_FIXED_LEN + 4 * i) as u32,
                ),
                width_ratio,
                height_ratio,
                width: if width_ratio > height_ratio {
                    max_side_length
                } else {
                    scaled_side(max_side_length, width_ratio, height_ratio) as u32
                },
                height: if width_ratio > height_ratio {
                    scaled_side(max_side_length, height_ratio, width_ratio) as u32
                } else {
                    max_side_length
                },
            },
        )
    }
}

impl Image {
    /// Decodes the texture sub-header that follows the header described by
    /// `metadata` in `data`.
    pub fn from_with_header(data: &[u8], metadata: &Metadata) -> (image: Result<Self, BuildError>)
        ensures
            match image {
                Ok(image) => image_at(data@, metadata.size as int) == Ok::<
                    ImageModel,
                    BuildError,
                >(image@),
                Err(error) => image_at(data@, metadata.size as int) == Err::<
                    ImageModel,
                    BuildError,
                >(error),
            },
    {
        let base = metadata.size;
        let len = data.len();
        if len < IMAGE_FIXED_LEN || base > len - IMAGE_FIXED_LEN {
            return Err(BuildError::Truncated);
        }
        let f_cache_image_count = data[base + 1];
        let format = match DDSFormat::from_tag(data[base + 3]) {
            Some(format) => format,
            None => { return Err(BuildError::UnknownFormat); },
        };
        let count = read_u32_le(data, base + 4).unwrap();
        let rest: usize = len - (base + IMAGE_FIXED_LEN);
        if rest < IMAGE_TRAILER_LEN || (rest - IMAGE_TRAILER_LEN) / 4 < count as usize {
            return Err(BuildError::Truncated);
        }
        let mut f_cache_image_offsets: Vec<u32> = Vec::new();
        let mut index: usize = 0;
        while index < count as usize
            invariant
                0 <= index <= count,
                len == data@.len(),
                base + IMAGE_FIXED_LEN + 4 * count + IMAGE_TRAILER_LEN <= len,
                f_cache_image_offsets@.len() == index,
                forall|i: int|
                    0 <= i < index ==> #[trigger] f_cache_image_offsets@[i] == u32_le(
                        data@,
                        base + IMAGE_FIXED_LEN + 4 * i,
                    ),
            decreases count - index,
        {
            let offset = read_u32_le(data, base + IMAGE_FIXED_LEN + 4 * index).unwrap();
            f_cache_image_offsets.push(offset);
            index += 1;
        }
        let at: usize = base + IMAGE_FIXED_LEN + 4 * (count as usize);
        let width_ratio = read_u16_le(data, at).unwrap();
        let height_ratio = read_u16_le(data, at + 2).unwrap();
        let max_side_length = read_u32_le(data, at + 8).unwrap();
        if width_ratio == 0 && height_ratio == 0 {
            return Err(BuildError::UnknownFormat);
        }
        let (width, height) = if width_ratio > height_ratio {
            (max_side_length, scale(max_side_length, height_ratio, width_ratio))
        } else {
            (scale(max_side_length, width_ratio, height_ratio), max_side_length)
        };
        let image = Self {
            format,
            f_cache_image_count,
            f_cache_image_offsets,
            width_ratio,
            height_ratio,
            width,
            height,
        };
        assert(image@.f_cache_image_offsets =~= image_at(
            data@,
            base as int,
        )->Ok_0.f_cache_image_offsets);
        Ok(image)
    }

    /// Computes the number of bytes that the pixels take.
    pub fn size(&self) -> (size: u128)
        ensures
            size == self@.size(),
    {
        dds_size(self.width, self.height, self.format)
    }

    /// Tells where the pixels come from.
    pub fn source(&self) -> (source: PixelSource)
        ensures
            source == self@.source(),
    {
        if self.f_cache_image_count > 0 {
            let count = self.f_cache_image_offsets.len();
            if count > 0 {
                PixelSource::Fragment { sub_offset: self.f_cache_image_offsets[count - 1] }
            } else {
                PixelSource::TailOfF
            }
        } else {
            PixelSource::TailOfB
        }
    }
}

fn scale(max_side_length: u32, ratio: u16, longer_ratio: u16) -> (side: u32)
    requires
        ratio <= longer_ratio,
        longer_ratio > 0,
    ensures
        side == scaled_side(max_side_length, ratio, longer_ratio),
{
    assert(0 <= max_side_length * ratio <= 0xFFFF_FFFF * 0xFFFF) by (nonlinear_arith)
        requires
            0 <= max_side_length <= 0xFFFF_FFFF,
            0 <= ratio <= 0xFFFF,
    ;
    let product: u64 = max_side_length as u64 * ratio as u64;
    assert(max_side_length * ratio / (longer_ratio as int) <= max_side_length)
        by (nonlinear_arith)
        requires
            0 <= ratio <= longer_ratio,
            longer_ratio > 0,
            0 <= max_side_length,
    ;
    (product / longer_ratio as u64) as u32
}

} // verus!
