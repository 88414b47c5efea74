//! The DDS header of a texture. The headers are written by the `ddsfile`
//! crate. The header without an extension is spelled out here word by word;
//! the header with an extension is named.

use crate::bytes::{le_bytes_u32, push_bytes};
use crate::texture::header::{DDSFormat, Image};
use vstd::prelude::*;

verus! {

/// The number of bytes of a DDS header without the extension.
pub const DDS_HEADER_LEN: usize = 124;

/// The number of bytes of the extension of a DDS header.
pub const DDS_EXTENSION_LEN: usize = 20;

/// The header flags of a header that gives capabilities, height, width and
/// pixel format.
pub const HEADER_FLAGS: u32 = 0x1007;

/// The pixel format flags that a DDS header knows: alpha pixels, alpha,
/// four-character code, colour, YUV and luminance.
pub const PIXEL_FORMAT_FLAGS: u32 = 0x20247;

/// The pixel format flags of colour with alpha.
pub const COLOUR_WITH_ALPHA: u32 = 0x41;

/// The capabilities of a texture.
pub const CAPS_TEXTURE: u32 = 0x1000;

/// The resource dimension of a flat texture.
pub const DIMENSION_TEXTURE_2D: u32 = 3;

/// The alpha mode that says nothing of the alpha channel.
pub const ALPHA_MODE_UNKNOWN: u32 = 0;

/// The bytes "DDS ", which start every DDS file.
pub open spec fn dds_magic() -> Seq<u8> {
    seq![0x44u8, 0x44u8, 0x53u8, 0x20u8]
}

/// The bytes of `words`, each word in four bytes, least significant first.
pub open spec fn words_le(words: Seq<u32>) -> Seq<u8> {
    Seq::new(4 * words.len(), |i: int| le_bytes_u32(words[i / 4])[i % 4])
}

/// The value of an optional word of a header: 0 where there is none.
pub open spec fn word_or_zero(word: Option<u32>) -> u32 {
    match word {
        Some(word) => word,
        None => 0,
    }
}

/// The 31 words of a DDS header without an extension: its size, its flags,
/// height, width and pitch, depth and mip map count (none), eleven reserved
/// words, then the pixel format (its size, its flags, the four-character
/// code, the bit count and the masks of red, green, blue and alpha), the
/// capabilities, and four more words that are not used. Of the pixel format
/// flags only those that a DDS header knows are kept.
pub open spec fn plain_header_words(
    width: u32,
    height: u32,
    pitch: Option<u32>,
    fourcc: Option<u32>,
    flags: u32,
    bit_count: Option<u32>,
    masks: Option<(u32, u32, u32, u32)>,
) -> Seq<u32> {
    seq![
        124u32,
        HEADER_FLAGS,
        height,
        width,
        word_or_zero(pitch),
        0u32,
        0u32,
        0u32,
        0u32,
        0u32,
        0u32,
        0u32,
        0u32,
        0u32,
        0u32,
        0u32,
        0u32,
        0u32,
        32u32,
        flags & PIXEL_FORMAT_FLAGS,
        word_or_zero(fourcc),
        word_or_zero(bit_count),
        match masks {
            Some(m) => m.0,
            None => 0u32,
        },
        match masks {
            Some(m) => m.1,
            None => 0u32,
        },
        match masks {
            Some(m) => m.2,
            None => 0u32,
        },
        match masks {
            Some(m) => m.3,
            None => 0u32,
        },
        CAPS_TEXTURE,
        0u32,
        0u32,
        0u32,
        0u32,
    ]
}

/// The DDS header without an extension for a texture of the given size
/// and, as far as they are there, a pitch, a four-character code, pixel
/// format flags, a bit count and bit masks.
pub open spec fn plain_header(
    width: u32,
    height: u32,
    pitch: Option<u32>,
    fourcc: Option<u32>,
    flags: u32,
    bit_count: Option<u32>,
    masks: Option<(u32, u32, u32, u32)>,
) -> Seq<u8> {
    words_le(plain_header_words(width, height, pitch, fourcc, flags, bit_count, masks))
}

/// The header with its extension that `ddsfile` writes for a texture of
/// blocks of 16 bytes: the header that it makes for the size, the depth,
/// the format, the mip map levels, the array layers and the second
/// capabilities, followed by the extension that it makes for the format,
/// the cube map mark, the resource dimension, the array size and the alpha
/// mode.
pub uninterp spec fn dds_extended_header(
    width: u32,
    height: u32,
    depth: Option<u32>,
    format: u32,
    mipmap_levels: Option<u32>,
    array_layers: Option<u32>,
    caps2: Option<u32>,
    is_cubemap: bool,
    resource_dimension: u32,
    array_size: u32,
    alpha_mode: u32,
) -> Seq<u8>;

#[verifier::external_type_specification]
#[verifier::external_body]
pub struct ExDdsError(ddsfile::Error);

/// Writes, with `ddsfile::Header::write`, the header that
/// `ddsfile::Header::default` makes, after its size, pitch and pixel format
/// were set from the arguments. The masks are those of red, green, blue and
/// alpha. `Header::write` writes the 31 words of the header in their order,
/// each in four bytes, least significant first; a field that is not there
/// is written as 0, and the fields that the arguments do not reach keep
/// what the default header has.
#[verifier::external_body]
fn write_plain_header(
    width: u32,
    height: u32,
    pitch: Option<u32>,
    fourcc: Option<u32>,
    flags: u32,
    bit_count: Option<u32>,
    masks: Option<(u32, u32, u32, u32)>,
) -> (out: Vec<u8>)
    ensures
        out@ == plain_header(width, height, pitch, fourcc, flags, bit_count, masks),
{
    let mut header = ddsfile::Header::default();
    header.width = width;
    header.height = height;
    header.pitch = pitch;
    header.spf.fourcc = fourcc.map(ddsfile::FourCC);
    header.spf.flags.insert(ddsfile::PixelFormatFlags::from_bits_truncate(flags));
    header.spf.rgb_bit_count = bit_count;
    header.spf.r_bit_mask = masks.map(|m| m.0);
    header.spf.g_bit_mask = masks.map(|m| m.1);
    header.spf.b_bit_mask = masks.map(|m| m.2);
    header.spf.a_bit_mask = masks.map(|m| m.3);
    let mut out = Vec::new();
    let _ = header.write(&mut out);
    out
}

/// The number of columns of blocks that `ddsfile` counts for a width: one
/// for every four pixels, begun ones included, and at least one.
pub open spec fn block_columns(width: u32) -> int {
    if width == 0 {
        1
    } else {
        (width + 3) / 4
    }
}

/// Whether `ddsfile` can compute the pitch and the linear size of a texture
/// of blocks of 16 bytes in 32 bits: the pitch, the pitch times the rows of
/// blocks, and that times the depth must each fit.
pub open spec fn extension_fits(width: u32, height: u32, depth: Option<u32>) -> bool {
    let pitch = block_columns(width) * 16;
    let rows = (height + 3) / 4;
    let layers = match depth {
        Some(depth) => depth as int,
        None => 1,
    };
    &&& pitch <= u32::MAX
    &&& pitch * rows <= u32::MAX
    &&& pitch * rows * layers <= u32::MAX
}

/// Makes the header of a texture with `ddsfile::Header::new_dxgi` and its
/// extension with `ddsfile::Header10::new`, and writes both with their
/// `write`, the header first. The format, the resource dimension and the
/// alpha mode are given by their numbers, which `try_from` turns into the
/// values of `ddsfile`. For the two formats and the numbers that the
/// `requires` admits every step succeeds: `new_dxgi` fails only where a
/// format has no pitch, and these formats have blocks of four by four
/// pixels and 16 bytes. The bytes are a function of the arguments, and
/// there are 144 of them.
#[verifier::external_body]
fn write_extended_header(
    width: u32,
    height: u32,
    depth: Option<u32>,
    format: u32,
    mipmap_levels: Option<u32>,
    array_layers: Option<u32>,
    caps2: Option<u32>,
    is_cubemap: bool,
    resource_dimension: u32,
    array_size: u32,
    alpha_mode: u32,
) -> (out: Result<Vec<u8>, ddsfile::Error>)
    requires
        format == 95 || format == 98,
        resource_dimension <= 4,
        alpha_mode <= 4,
        extension_fits(width, height, depth),
    ensures
        out is Ok,
        out->Ok_0@ == dds_extended_header(
            width,
            height,
            depth,
            format,
            mipmap_levels,
            array_layers,
            caps2,
            is_cubemap,
            resource_dimension,
            array_size,
            alpha_mode,
        ),
        out->Ok_0@.len() == DDS_HEADER_LEN + DDS_EXTENSION_LEN,
{
    let dxgi = ddsfile::DxgiFormat::try_from(format)?;
    let dimension = ddsfile::D3D10ResourceDimension::try_from(resource_dimension)?;
    let alpha = ddsfile::AlphaMode::try_from(alpha_mode)?;
    let caps2 = caps2.map(ddsfile::Caps2::from_bits_truncate);
    let header =
        ddsfile::Header::new_dxgi(height, width, depth, dxgi, mipmap_levels, array_layers, caps2)?;
    let extension = ddsfile::Header10::new(dxgi, is_cubemap, dimension, array_size, alpha);
    let mut out = Vec::new();
    header.write(&mut out)?;
    extension.write(&mut out)?;
    Ok(out)
}

/// The number of bits of a pixel that is not compressed.
pub const BITS_PER_PIXEL: u32 = 32;

/// The pitch of a texture whose pixels are not compressed: the bytes of a
/// row of pixels.
pub open spec fn pitch_of(width: u32) -> int {
    width * BITS_PER_PIXEL / 8
}

/// The DDS header of a texture, without the bytes that start the file; none
/// where a DDS header cannot describe the texture. Pixels that are not
/// compressed get a header with a pitch, the flags of colour with alpha, and
/// the bit masks of red, green, blue and alpha in 32 bits. The two newest
/// formats get a header with an extension, which says that the texture is
/// flat, no cube map and no array, and says nothing of depth, mip maps and
/// alpha. The others get a header with their four-character code.
pub open spec fn dds_header_of(width: u32, height: u32, format: DDSFormat) -> Option<Seq<u8>> {
    match format {
        DDSFormat::Uncompressed => if pitch_of(width) <= u32::MAX {
            Some(
                plain_header(
                    width,
                    height,
                    Some(pitch_of(width) as u32),
                    None,
                    COLOUR_WITH_ALPHA,
                    Some(BITS_PER_PIXEL),
                    Some((0x00FF0000, 0x0000FF00, 0x000000FF, 0xFF000000)),
                ),
            )
        } else {
            None
        },
        DDSFormat::BC6H_UF16 | DDSFormat::BC7_UNORM => if extension_fits(width, height, None) {
            Some(
                dds_extended_header(
                    width,
                    height,
                    None,
                    format.spec_to_dxgi_format(),
                    None,
                    None,
                    None,
                    false,
                    DIMENSION_TEXTURE_2D,
                    1,
                    ALPHA_MODE_UNKNOWN,
                ),
            )
        } else {
            None
        },
        _ => Some(plain_header(width, height, None, format.spec_to_fourcc(), 0, None, None)),
    }
}

/// A header without an extension has 124 bytes.
pub proof fn lemma_plain_header_len(
    width: u32,
    height: u32,
    pitch: Option<u32>,
    fourcc: Option<u32>,
    flags: u32,
    bit_count: Option<u32>,
    masks: Option<(u32, u32, u32, u32)>,
)
    ensures
        plain_header(width, height, pitch, fourcc, flags, bit_count, masks).len()
            == DDS_HEADER_LEN,
{
}

/// Every texture whose sides measure 16384 pixels or less has a DDS
/// header, whatever its format.
pub proof fn lemma_moderate_textures_have_a_header(width: u32, height: u32, format: DDSFormat)
    requires
        width <= 16384,
        height <= 16384,
    ensures
        dds_header_of(width, height, format) is Some,
{
    let pitch = block_columns(width) * 16;
    let rows = (height + 3) / 4;
    assert(pitch * rows <= 65536 * 4096) by (nonlinear_arith)
        requires
            0 <= pitch <= 65536,
            0 <= rows <= 4096,
    ;
}

/// Writes the DDS header of a texture, without the bytes that start the file.
pub fn write_header(image: &Image) -> (out: Option<Vec<u8>>)
    ensures
        out is Some <==> dds_header_of(image.width, image.height, image.format) is Some,
        out is Some ==> out->0@ == dds_header_of(image.width, image.height, image.format)->0,
{
    let width = image.width;
    let height = image.height;
    match image.format {
        DDSFormat::Uncompressed => {
            assert(width * BITS_PER_PIXEL == width * 32);
            let pitch: u64 = width as u64 * BITS_PER_PIXEL as u64 / 8;
            if pitch > u32::MAX as u64 {
                return None;
            }
            Some(
                write_plain_header(
                    width,
                    height,
                    Some(pitch as u32),
                    None,
                    COLOUR_WITH_ALPHA,
                    Some(BITS_PER_PIXEL),
                    Some((0x00FF0000, 0x0000FF00, 0x000000FF, 0xFF000000)),
                ),
            )
        },
        DDSFormat::BC6H_UF16 | DDSFormat::BC7_UNORM => {
            let columns: u64 = if width == 0 {
                1
            } else {
                (width as u64 + 3) / 4
            };
            let rows: u64 = (height as u64 + 3) / 4;
            let pitch: u64 = columns * 16;
            if pitch > u32::MAX as u64 {
                return None;
            }
            assert(pitch * rows <= 0xFFFF_FFFF * 0x4000_0000) by (nonlinear_arith)
                requires
                    0 <= pitch <= 0xFFFF_FFFF,
                    0 <= rows <= 0x4000_0000,
            ;
            if pitch * rows > u32::MAX as u64 {
                return None;
            }
            match write_extended_header(
                width,
                height,
                None,
                image.format.to_dxgi_format(),
                None,
                None,
                None,
                false,
                DIMENSION_TEXTURE_2D,
                1,
                ALPHA_MODE_UNKNOWN,
            ) {
                Ok(bytes) => Some(bytes),
                Err(_) => None,
            }
        },
        _ => Some(write_plain_header(width, height, None, image.format.to_fourcc(), 0, None, None)),
    }
}

/// Joins the bytes that start a DDS file, a header and the pixels.
pub fn assemble(header: &[u8], pixels: &[u8]) -> (file: Vec<u8>)
    ensures
        file@ == dds_magic() + header@ + pixels@,
{
    let mut file: Vec<u8> = Vec::new();
    file.push(0x44);
    file.push(0x44);
    file.push(0x53);
    file.push(0x20);
    assert(file@ =~= dds_magic());
    push_bytes(&mut file, header);
    push_bytes(&mut file, pixels);
    file
}

} // verus!
