//! The two packets that open an Opus stream: the identification header and
//! the comment header.

use crate::bytes::{le_bytes_u16, le_bytes_u32, push_bytes, push_u16_le, push_u32_le};
use vstd::prelude::*;
use vstd::string::StringSliceAdditionalSpecFns;
use vstd::utf8::encode_utf8;

verus! {

/// The eight bytes that start the identification header: "OpusHead".
pub open spec fn opus_head_magic() -> Seq<u8> {
    seq![0x4Fu8, 0x70u8, 0x75u8, 0x73u8, 0x48u8, 0x65u8, 0x61u8, 0x64u8]
}

/// The eight bytes that start the comment header: "OpusTags".
pub open spec fn opus_tags_magic() -> Seq<u8> {
    seq![0x4Fu8, 0x70u8, 0x75u8, 0x73u8, 0x54u8, 0x61u8, 0x67u8, 0x73u8]
}

/// The identification header.
#[derive(Clone, Debug)]
pub struct OpusHead {
    pub magic: [u8; 8],
    pub version: u8,
    pub channels: u8,
    pub pre_skip: u16,
    pub input_sample_rate: u32,
    pub output_gain: u16,
    pub channel_mapping_family: u8,
}

impl OpusHead {
    /// The header as it stands in a packet.
    pub open spec fn bytes(&self) -> Seq<u8> {
        self.magic@ + seq![self.version, self.channels] + le_bytes_u16(self.pre_skip)
            + le_bytes_u32(self.input_sample_rate) + le_bytes_u16(self.output_gain)
            + seq![self.channel_mapping_family]
    }

    pub fn new(
        version: u8,
        channels: u8,
        pre_skip: u16,
        input_sample_rate: u32,
        output_gain: u16,
        channel_mapping_family: u8,
    ) -> (head: Self)
        ensures
            head.magic@ == opus_head_magic(),
            head.version == version,
            head.channels == channels,
            head.pre_skip == pre_skip,
            head.input_sample_rate == input_sample_rate,
            head.output_gain == output_gain,
            head.channel_mapping_family == channel_mapping_family,
    {
        let head = Self {
            magic: [0x4F, 0x70, 0x75, 0x73, 0x48, 0x65, 0x61, 0x64],
            version,
            channels,
            pre_skip,
            input_sample_rate,
            output_gain,
            channel_mapping_family,
        };
        assert(head.magic@ =~= opus_head_magic());
        head
    }

    /// Writes the header as it stands in a packet: nineteen bytes.
    pub fn to_bytes(&self) -> (out: Vec<u8>)
        ensures
            out@ == self.bytes(),
            out@.len() == 19,
    {
        let mut out: Vec<u8> = Vec::new();
        push_bytes(&mut out, self.magic.as_slice());
        out.push(self.version);
        out.push(self.channels);
        push_u16_le(&mut out, self.pre_skip);
        push_u32_le(&mut out, self.input_sample_rate);
        push_u16_le(&mut out, self.output_gain);
        out.push(self.channel_mapping_family);
        assert(out@ =~= self.bytes());
        out
    }
}

/// The length of `bytes` as a length prefix holds it: modulo 2^32.
pub open spec fn length_prefix(bytes: Seq<u8>) -> Seq<u8> {
    le_bytes_u32((bytes.len() % 0x1_0000_0000) as u32)
}

/// The first `count` comments, each behind its length prefix.
pub open spec fn comment_bytes(comments: Seq<String>, count: nat) -> Seq<u8>
    decreases count,
{
    if count == 0 || count > comments.len() {
        Seq::empty()
    } else {
        comment_bytes(comments, (count - 1) as nat) + length_prefix(
            encode_utf8(comments[count - 1]@),
        ) + encode_utf8(comments[count - 1]@)
    }
}

/// The comment header.
#[derive(Clone, Debug)]
pub struct OpusTags {
    pub magic: [u8; 8],
    pub vendor: String,
    pub user_comment_list: Vec<String>,
}

impl OpusTags {
    /// The header as it stands in a packet: the vendor and each comment
    /// behind its length, and the number of comments before the first.
    pub open spec fn bytes(&self) -> Seq<u8> {
        self.magic@ + length_prefix(encode_utf8(self.vendor@))
            + encode_utf8(self.vendor@) + le_bytes_u32(
            (self.user_comment_list@.len() % 0x1_0000_0000) as u32,
        ) + comment_bytes(self.user_comment_list@, self.user_comment_list@.len())
    }

    pub fn new(vendor: String, user_comment_list: Vec<String>) -> (tags: Self)
        ensures
            tags.magic@ == opus_tags_magic(),
            tags.vendor == vendor,
            tags.user_comment_list == user_comment_list,
    {
        let tags = Self {
            magic: [0x4F, 0x70, 0x75, 0x73, 0x54, 0x61, 0x67, 0x73],
            vendor,
            user_comment_list,
        };
        assert(tags.magic@ =~= opus_tags_magic());
        tags
    }

    /// Writes the header as it stands in a packet.
    pub fn to_bytes(&self) -> (out: Vec<u8>)
        ensures
            out@ == self.bytes(),
    {
        let mut out: Vec<u8> = Vec::new();
        push_bytes(&mut out, self.magic.as_slice());
        let vendor = self.vendor.as_str().as_bytes();
        push_u32_le(&mut out, (vendor.len() as u64 % 0x1_0000_0000) as u32);
        push_bytes(&mut out, vendor);
        push_u32_le(&mut out, (self.user_comment_list.len() as u64 % 0x1_0000_0000) as u32);
        let ghost start = out@;
        let mut i: usize = 0;
        while i < self.user_comment_list.len()
            invariant
                0 <= i <= self.user_comment_list@.len(),
                out@ == start + comment_bytes(self.user_comment_list@, i as nat),
            decreases self.user_comment_list@.len() - i,
        {
            let comment = self.user_comment_list[i].as_str().as_bytes();
            push_u32_le(&mut out, (comment.len() as u64 % 0x1_0000_0000) as u32);
            push_bytes(&mut out, comment);
            i += 1;
            assert(out@ =~= start + comment_bytes(self.user_comment_list@, i as nat));
        }
        assert(out@ =~= self.bytes());
        out
    }
}

} // verus!
