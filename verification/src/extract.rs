//! Extraction of assets: what is built from one asset, what the file is
//! called, and the bookkeeping of a batch.

use crate::audio::extract::{audio_container, extract as extract_audio};
use crate::error::BuildError;
use crate::metadata::{
    file_type_of, header_len, is_whole_header, type_tag_at, FileType, Metadata,
};
use crate::bytes::u32_le;
use crate::partition::{Extension, Partitions};
use crate::text::{from_chars, to_chars};
use crate::texture::extract::{extract as extract_texture, texture_container};
use crate::texture::header::{image_at, Image, PixelSource};
use vstd::prelude::*;

verus! {

/// The file that is built from an asset, and the extension that suits it.
/// `data` is what the header partition holds of the asset. An asset whose
/// header is cut short gives no file, nor does one of unknown kind.
pub open spec fn asset_container(data: Seq<u8>, partitions: Partitions, serial: u32) -> Result<
    (Seq<u8>, Extension),
    BuildError,
> {
    if !is_whole_header(data) {
        Err(BuildError::Truncated)
    } else {
        match file_type_of(u32_le(data, type_tag_at(data)) as u32) {
            FileType::Audio => audio_container(
                FileType::Audio,
                data,
                header_len(data),
                serial,
                partitions,
            ),
            FileType::Texture => match texture_container(
                FileType::Texture,
                data,
                header_len(data),
                partitions,
            ) {
                Ok(file) => Ok((file, Extension::Dds)),
                Err(error) => Err(error),
            },
            FileType::Unknown => Err(BuildError::UnsupportedAsset),
        }
    }
}

/// Whether `built` is what `model` says.
pub open spec fn is_asset_file(
    built: Result<(Vec<u8>, Extension), BuildError>,
    model: Result<(Seq<u8>, Extension), BuildError>,
) -> bool {
    match (built, model) {
        (Ok(file), Ok(expected)) => file.0@ == expected.0 && file.1 == expected.1,
        (Err(error), Err(expected)) => error == expected,
        _ => false,
    }
}

/// Builds the file of one asset: decodes the header, and hands the asset to
/// the builder of its kind. The stream of an Opus asset gets the serial
/// number `stream_serial_number`.
pub fn extract_file(data: &[u8], partitions: &Partitions, stream_serial_number: u32) -> (built:
    Result<(Vec<u8>, Extension), BuildError>)
    ensures
        is_asset_file(built, asset_container(data@, *partitions, stream_serial_number)),
{
    let metadata = match Metadata::decode(data) {
        Ok(metadata) => metadata,
        Err(_) => { return Err(BuildError::Truncated); },
    };
    match metadata.file_type {
        FileType::Audio => extract_audio(&metadata, data, partitions, stream_serial_number),
        FileType::Texture => match extract_texture(&metadata, data, partitions) {
            Ok(file) => Ok((file, Extension::Dds)),
            Err(error) => Err(error),
        },
        FileType::Unknown => Err(BuildError::UnsupportedAsset),
    }
}

/// The index of the last `.` of `name` before `end`, or 0 if there is none
/// behind the first character.
pub open spec fn last_dot(name: Seq<char>, end: int) -> int
    decreases end,
{
    if end <= 1 {
        0
    } else if name[end - 1] == '.' {
        end - 1
    } else {
        last_dot(name, end - 1)
    }
}

/// The part of `name` that is kept before the new extension: for a texture,
/// `name` without a `.png` at its end; for audio, `name` up to its last `.`,
/// unless the name has none behind its first character.
pub open spec fn stem_len(name: Seq<char>, extension: Extension) -> int {
    match extension {
        Extension::Dds => if name.len() >= 4 && name.subrange(name.len() - 4, name.len() as int)
            == seq!['.', 'p', 'n', 'g'] {
            name.len() - 4
        } else {
            name.len() as int
        },
        _ => if last_dot(name, name.len() as int) > 0 {
            last_dot(name, name.len() as int)
        } else {
            name.len() as int
        },
    }
}

/// The characters of an extension.
pub open spec fn extension_text(extension: Extension) -> Seq<char> {
    match extension {
        Extension::Wav => seq!['w', 'a', 'v'],
        Extension::Opus => seq!['o', 'p', 'u', 's'],
        Extension::Dds => seq!['d', 'd', 's'],
    }
}

/// The name of the file that is written for the asset called `name`.
pub open spec fn output_name(name: Seq<char>, extension: Extension) -> Seq<char> {
    name.take(stem_len(name, extension)) + seq!['.'] + extension_text(extension)
}

proof fn lemma_last_dot(name: Seq<char>, end: int)
    requires
        0 <= end <= name.len(),
    ensures
        0 <= last_dot(name, end) <= end,
    decreases end,
{
    if end > 1 && name[end - 1] != '.' {
        lemma_last_dot(name, end - 1);
    }
}

fn find_stem(name: &Vec<char>, extension: Extension) -> (len: usize)
    ensures
        len == stem_len(name@, extension),
        len <= name@.len(),
{
    let n = name.len();
    match extension {
        Extension::Dds => {
            if n >= 4 && name[n - 4] == '.' && name[n - 3] == 'p' && name[n - 2] == 'n' && name[n
                - 1] == 'g' {
                assert(name@.subrange(n - 4, n as int) =~= seq!['.', 'p', 'n', 'g']);
                n - 4
            } else {
                assert(n >= 4 ==> name@.subrange(n - 4, n as int) != seq!['.', 'p', 'n', 'g']) by {
                    if n >= 4 {
                        let end = name@.subrange(n - 4, n as int);
                        assert(end[0] == name@[n - 4]);
                        assert(end[1] == name@[n - 3]);
                        assert(end[2] == name@[n - 2]);
                        assert(end[3] == name@[n - 1]);
                    }
                }
                n
            }
        },
        _ => {
            let mut end: usize = n;
            while end > 1 && name[end - 1] != '.'
                invariant
                    0 <= end <= n,
                    n == name@.len(),
                    last_dot(name@, n as int) == last_dot(name@, end as int),
                decreases end,
            {
                end -= 1;
            }
            proof {
                lemma_last_dot(name@, n as int);
            }
            if end > 1 {
                end - 1
            } else {
                n
            }
        },
    }
}

/// Names the file that is written for the asset called `name`.
pub fn output_file_name(name: &str, extension: Extension) -> (file_name: String)
    ensures
        file_name@ == output_name(name@, extension),
{
    let chars = to_chars(name);
    let stem = find_stem(&chars, extension);
    let mut out: Vec<char> = Vec::new();
    let mut i: usize = 0;
    while i < stem
        invariant
            0 <= i <= stem <= chars@.len(),
            out@ == chars@.take(i as int),
        decreases stem - i,
    {
        out.push(chars[i]);
        i += 1;
        assert(out@ =~= chars@.take(i as int));
    }
    out.push('.');
    match extension {
        Extension::Wav => {
            out.push('w');
            out.push('a');
            out.push('v');
        },
        Extension::Opus => {
            out.push('o');
            out.push('p');
            out.push('u');
            out.push('s');
        },
        Extension::Dds => {
            out.push('d');
            out.push('d');
            out.push('s');
        },
    }
    assert(out@ =~= output_name(name@, extension));
    from_chars(out.as_slice())
}

/// The bookkeeping of a batch: how many files there are, how many were
/// handled, how many of those failed, and whether the batch was cancelled.
#[derive(Debug, Clone, Copy, PartialEq, Eq, Structural)]
pub struct Batch {
    pub total: usize,
    pub completed: usize,
    pub failed: usize,
    pub cancelled: bool,
}

impl Batch {
    /// Whether the counts fit together.
    pub open spec fn well_formed(&self) -> bool {
        self.failed <= self.completed <= self.total
    }

    /// The number of files that were built.
    pub open spec fn spec_succeeded(&self) -> int {
        self.completed - self.failed
    }

    /// The file to handle next, if the batch goes on.
    pub open spec fn spec_next(&self, cancel_requested: bool) -> Option<usize> {
        if self.cancelled || cancel_requested || self.completed >= self.total {
            None
        } else {
            Some(self.completed)
        }
    }

    /// A batch of `total` files, none of them handled.
    pub fn new(total: usize) -> (batch: Self)
        ensures
            batch == (Batch { total, completed: 0, failed: 0, cancelled: false }),
            batch.well_formed(),
    {
        Batch { total, completed: 0, failed: 0, cancelled: false }
    }

    /// Tells which file to handle next, by its index in the order of
    /// extraction; none once every file was handled or the batch was
    /// cancelled. A request to cancel is remembered. Nothing else ends a
    /// batch: files that failed do not.
    pub fn next(&mut self, cancel_requested: bool) -> (index: Option<usize>)
        requires
            old(self).well_formed(),
        ensures
            index == old(self).spec_next(cancel_requested),
            *final(self) == (Batch {
                cancelled: old(self).cancelled || cancel_requested,
                ..*old(self)
            }),
            final(self).well_formed(),
    {
        if cancel_requested {
            self.cancelled = true;
        }
        if self.cancelled || self.completed >= self.total {
            None
        } else {
            Some(self.completed)
        }
    }

    /// Records that the file that was due is handled, and whether it was
    /// built.
    pub fn record(&mut self, succeeded: bool)
        requires
            old(self).well_formed(),
            old(self).completed < old(self).total,
        ensures
            final(self).well_formed(),
            *final(self) == (Batch {
                completed: (old(self).completed + 1) as usize,
                failed: if succeeded {
                    old(self).failed
                } else {
                    (old(self).failed + 1) as usize
                },
                ..*old(self)
            }),
    {
        self.completed += 1;
        if !succeeded {
            self.failed += 1;
        }
    }

    /// The progress to report: how many files were handled, and how many
    /// there are.
    pub fn progress(&self) -> (progress: (usize, usize))
        ensures
            progress == (self.completed, self.total),
    {
        (self.completed, self.total)
    }

    /// The number of files that were built.
    pub fn succeeded(&self) -> (count: usize)
        requires
            self.well_formed(),
        ensures
            count == self.spec_succeeded(),
    {
        self.completed - self.failed
    }

    /// Whether no file is left to handle, or the batch was cancelled.
    pub fn is_finished(&self) -> (finished: bool)
        ensures
            finished == (self.spec_next(false) is None),
    {
        self.cancelled || self.completed >= self.total
    }
}

/// What has to be read from the partitions to build the file of an asset.
#[derive(Debug, Clone, Copy, PartialEq, Eq, Structural)]
pub enum Payloads {
    /// The payloads of an audio asset in the F and B partitions, as far as
    /// they hold one.
    Samples,
    /// As many bytes of pixels as a texture takes, from the given source.
    Pixels { source: PixelSource, size: u128 },
}

/// What the asset with the header partition data `data` needs from the
/// other partitions; an error where no file can be built whatever they hold.
pub open spec fn payloads_of(data: Seq<u8>) -> Result<Payloads, BuildError> {
    if !is_whole_header(data) {
        Err(BuildError::Truncated)
    } else {
        match file_type_of(u32_le(data, type_tag_at(data)) as u32) {
            FileType::Audio => Ok(Payloads::Samples),
            FileType::Texture => match image_at(data, header_len(data)) {
                Ok(image) => Ok(
                    Payloads::Pixels { source: image.source(), size: image.size() as u128 },
                ),
                Err(error) => Err(error),
            },
            FileType::Unknown => Err(BuildError::UnsupportedAsset),
        }
    }
}

/// Tells what to read from the partitions before the file of an asset is
/// built.
pub fn payloads_needed(data: &[u8]) -> (needed: Result<Payloads, BuildError>)
    ensures
        needed == payloads_of(data@),
{
    let metadata = match Metadata::decode(data) {
        Ok(metadata) => metadata,
        Err(_) => { return Err(BuildError::Truncated); },
    };
    match metadata.file_type {
        FileType::Audio => Ok(Payloads::Samples),
        FileType::Texture => match Image::from_with_header(data, &metadata) {
            Ok(image) => Ok(Payloads::Pixels { source: image.source(), size: image.size() }),
            Err(error) => Err(error),
        },
        FileType::Unknown => Err(BuildError::UnsupportedAsset),
    }
}

} // verus!
