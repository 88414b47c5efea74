//! Ogg pages: the header with its segment table, the body, and the checksum
//! that seals a page.

use crate::bytes::{le_bytes_u32, le_bytes_u64, push_bytes, push_u32_le, push_u64_le};
use vstd::prelude::*;

verus! {

/// The polynomial of the checksum of Ogg, without its highest term.
pub const OGG_POLYNOMIAL: u32 = 0x04C1_1DB7;

/// The register of the checksum after one more shift: the bits move up by
/// one, and where the bit that leaves at the top was set, the polynomial is
/// taken away.
pub open spec fn shift_bit(register: u32) -> u32 {
    if register & 0x8000_0000 == 0 {
        register << 1
    } else {
        (register << 1) ^ OGG_POLYNOMIAL
    }
}

/// The register after `count` shifts.
pub open spec fn shift_bits(register: u32, count: nat) -> u32
    decreases count,
{
    if count == 0 {
        register
    } else {
        shift_bit(shift_bits(register, (count - 1) as nat))
    }
}

/// The register after one more byte of the message: the byte is added to
/// the top eight bits, and the register is shifted eight times.
pub open spec fn shift_byte(register: u32, byte: u8) -> u32 {
    shift_bits(register ^ ((byte as u32) << 24), 8)
}

/// The checksum of `data` under the CRC-32 of Ogg: what a register of 32
/// bits holds after the bytes of `data` went through it, most significant
/// bit first. The register starts at 0; nothing is reflected, and nothing
/// is added at the end.
pub open spec fn crc32_ogg(data: Seq<u8>) -> u32
    decreases data.len(),
{
    if data.len() == 0 {
        0
    } else {
        shift_byte(crc32_ogg(data.drop_last()), data.last())
    }
}

/// Computes the checksum of `data` with `crc::Crc::<u32>::checksum`, on an
/// algorithm made with `crc::Crc::<u32>::new` from the parameters of Ogg:
/// width 32, polynomial 0x04C11DB7, initial value 0, no reflection of input
/// or output, and no final xor. By the documentation of these parameters
/// the result is what the shift register of that polynomial holds after the
/// message, read most significant bit first.
#[verifier::external_body]
pub(crate) fn page_checksum(data: &[u8]) -> (sum: u32)
    ensures
        sum == crc32_ogg(data@),
{
    crc::Crc::<u32>::new(
        &crc::Algorithm {
            width: 32,
            poly: 0x04C11DB7,
            init: 0x00000000,
            refin: false,
            refout: false,
            xorout: 0x00000000,
            check: 0x00000000,
            residue: 0x00000000,
        },
    ).checksum(data)
}

/// Two registers that are equal after a shift were equal before it.
pub proof fn lemma_shift_bit_is_injective(a: u32, b: u32)
    requires
        shift_bit(a) == shift_bit(b),
    ensures
        a == b,
{
    assert((if a & 0x8000_0000 == 0 {
        a << 1
    } else {
        (a << 1) ^ 0x04C1_1DB7
    }) == (if b & 0x8000_0000 == 0 {
        b << 1
    } else {
        (b << 1) ^ 0x04C1_1DB7
    }) ==> a == b) by (bit_vector);
}

/// Two registers that are equal after some shifts were equal before them.
pub proof fn lemma_shift_bits_is_injective(a: u32, b: u32, count: nat)
    requires
        shift_bits(a, count) == shift_bits(b, count),
    ensures
        a == b,
    decreases count,
{
    if count > 0 {
        lemma_shift_bit_is_injective(
            shift_bits(a, (count - 1) as nat),
            shift_bits(b, (count - 1) as nat),
        );
        lemma_shift_bits_is_injective(a, b, (count - 1) as nat);
    }
}

/// Two registers that are equal after the same byte were equal before it.
pub proof fn lemma_shift_byte_keeps_registers_apart(a: u32, b: u32, byte: u8)
    requires
        a != b,
    ensures
        shift_byte(a, byte) != shift_byte(b, byte),
{
    let x = byte as u32;
    if shift_byte(a, byte) == shift_byte(b, byte) {
        lemma_shift_bits_is_injective(a ^ (x << 24), b ^ (x << 24), 8);
        assert((a ^ (x << 24)) == (b ^ (x << 24)) ==> a == b) by (bit_vector);
    }
}

/// Two bytes that differ take a register to different registers.
pub proof fn lemma_shift_byte_tells_bytes_apart(register: u32, one: u8, other: u8)
    requires
        one != other,
    ensures
        shift_byte(register, one) != shift_byte(register, other),
{
    let x = one as u32;
    let y = other as u32;
    if shift_byte(register, one) == shift_byte(register, other) {
        lemma_shift_bits_is_injective(register ^ (x << 24), register ^ (y << 24), 8);
        assert(x < 256 && y < 256 && (register ^ (x << 24)) == (register ^ (y << 24)) ==> x == y)
            by (bit_vector);
    }
}

/// A byte can be taken through the register by a table: the register
/// after the byte is the register moved up by eight bits, with the entry
/// for its top eight bits and the byte added, where the entry of a number
/// is that number in the top eight bits of a register after eight shifts.
pub proof fn lemma_shift_byte_by_table(register: u32, byte: u8)
    ensures
        shift_byte(register, byte) == shift_bits(
            (((register >> 24) ^ (byte as u32)) & 0xFF) << 24,
            8,
        ) ^ (register << 8),
{
    reveal_with_fuel(shift_bits, 9);
    let r = register;
    let x = byte as u32;
    assert(x < 256 ==> ({
        let a0 = r ^ (x << 24);
        let a1 = if a0 & 0x8000_0000 == 0 { a0 << 1 } else { (a0 << 1) ^ 0x04C1_1DB7 };
        let a2 = if a1 & 0x8000_0000 == 0 { a1 << 1 } else { (a1 << 1) ^ 0x04C1_1DB7 };
        let a3 = if a2 & 0x8000_0000 == 0 { a2 << 1 } else { (a2 << 1) ^ 0x04C1_1DB7 };
        let a4 = if a3 & 0x8000_0000 == 0 { a3 << 1 } else { (a3 << 1) ^ 0x04C1_1DB7 };
        let a5 = if a4 & 0x8000_0000 == 0 { a4 << 1 } else { (a4 << 1) ^ 0x04C1_1DB7 };
        let a6 = if a5 & 0x8000_0000 == 0 { a5 << 1 } else { (a5 << 1) ^ 0x04C1_1DB7 };
        let a7 = if a6 & 0x8000_0000 == 0 { a6 << 1 } else { (a6 << 1) ^ 0x04C1_1DB7 };
        let a8 = if a7 & 0x8000_0000 == 0 { a7 << 1 } else { (a7 << 1) ^ 0x04C1_1DB7 };
        let b0 = (((r >> 24) ^ x) & 0xFF) << 24;
        let b1 = if b0 & 0x8000_0000 == 0 { b0 << 1 } else { (b0 << 1) ^ 0x04C1_1DB7 };
        let b2 = if b1 & 0x8000_0000 == 0 { b1 << 1 } else { (b1 << 1) ^ 0x04C1_1DB7 };
        let b3 = if b2 & 0x8000_0000 == 0 { b2 << 1 } else { (b2 << 1) ^ 0x04C1_1DB7 };
        let b4 = if b3 & 0x8000_0000 == 0 { b3 << 1 } else { (b3 << 1) ^ 0x04C1_1DB7 };
        let b5 = if b4 & 0x8000_0000 == 0 { b4 << 1 } else { (b4 << 1) ^ 0x04C1_1DB7 };
        let b6 = if b5 & 0x8000_0000 == 0 { b5 << 1 } else { (b5 << 1) ^ 0x04C1_1DB7 };
        let b7 = if b6 & 0x8000_0000 == 0 { b6 << 1 } else { (b6 << 1) ^ 0x04C1_1DB7 };
        let b8 = if b7 & 0x8000_0000 == 0 { b7 << 1 } else { (b7 << 1) ^ 0x04C1_1DB7 };
        a8 == b8 ^ (r << 8)
    })) by (bit_vector);
}

/// Two messages of one length that differ in one byte and in no other have
/// different checksums.
pub proof fn lemma_one_changed_byte_changes_the_checksum(a: Seq<u8>, b: Seq<u8>, at: int)
    requires
        a.len() == b.len(),
        0 <= at < a.len(),
        a[at] != b[at],
        forall|i: int| 0 <= i < a.len() && i != at ==> a[i] == b[i],
    ensures
        crc32_ogg(a) != crc32_ogg(b),
    decreases a.len(),
{
    if at == a.len() - 1 {
        assert(a.drop_last() =~= b.drop_last());
        lemma_shift_byte_tells_bytes_apart(crc32_ogg(a.drop_last()), a.last(), b.last());
    } else {
        lemma_one_changed_byte_changes_the_checksum(a.drop_last(), b.drop_last(), at);
        lemma_shift_byte_keeps_registers_apart(
            crc32_ogg(a.drop_last()),
            crc32_ogg(b.drop_last()),
            a.last(),
        );
    }
}

/// The four bytes that start every page: "OggS".
pub open spec fn ogg_magic() -> Seq<u8> {
    seq![0x4Fu8, 0x67u8, 0x67u8, 0x53u8]
}

/// The header of a page.
#[derive(Clone, Debug)]
pub struct OggHeader {
    pub magic: [u8; 4],
    pub version: u8,
    pub header_type: u8,
    pub granule_position: u64,
    pub stream_serial_number: u32,
    pub page_sequence_number: u32,
    pub checksum: u32,
    pub page_segments: u8,
    pub segment_table: Vec<u8>,
}

/// The bytes of a page header with the given fields.
pub open spec fn header_bytes(
    magic: Seq<u8>,
    version: u8,
    header_type: u8,
    granule_position: u64,
    stream_serial_number: u32,
    page_sequence_number: u32,
    checksum: u32,
    page_segments: u8,
    segment_table: Seq<u8>,
) -> Seq<u8> {
    magic + seq![version, header_type] + le_bytes_u64(granule_position) + le_bytes_u32(
        stream_serial_number,
    ) + le_bytes_u32(page_sequence_number) + le_bytes_u32(checksum) + seq![page_segments]
        + segment_table
}

impl OggHeader {
    /// The header as it stands in a stream.
    pub open spec fn bytes(&self) -> Seq<u8> {
        header_bytes(
            self.magic@,
            self.version,
            self.header_type,
            self.granule_position,
            self.stream_serial_number,
            self.page_sequence_number,
            self.checksum,
            self.page_segments,
            self.segment_table@,
        )
    }

    /// The header as it stands in a stream when the checksum is not yet known.
    pub open spec fn unsealed_bytes(&self) -> Seq<u8> {
        header_bytes(
            self.magic@,
            self.version,
            self.header_type,
            self.granule_position,
            self.stream_serial_number,
            self.page_sequence_number,
            0,
            self.page_segments,
            self.segment_table@,
        )
    }

    /// Whether `self` is a header of version 0 with the given fields.
    pub open spec fn holds(
        &self,
        header_type: u8,
        granule_position: u64,
        stream_serial_number: u32,
        page_sequence_number: u32,
        page_segments: u8,
        segment_table: Seq<u8>,
    ) -> bool {
        &&& self.magic@ == ogg_magic()
        &&& self.version == 0
        &&& self.header_type == header_type
        &&& self.granule_position == granule_position
        &&& self.stream_serial_number == stream_serial_number
        &&& self.page_sequence_number == page_sequence_number
        &&& self.page_segments == page_segments
        &&& self.segment_table@ == segment_table
    }

    /// A header of version 0 with the checksum left at zero.
    pub fn new(
        header_type: u8,
        granule_position: u64,
        stream_serial_number: u32,
        page_sequence_number: u32,
        page_segments: u8,
        segment_table: Vec<u8>,
    ) -> (header: Self)
        ensures
            header.holds(
                header_type,
                granule_position,
                stream_serial_number,
                page_sequence_number,
                page_segments,
                segment_table@,
            ),
            header.checksum == 0,
    {
        let header = Self {
            magic: [0x4F, 0x67, 0x67, 0x53],
            version: 0,
            header_type,
            granule_position,
            stream_serial_number,
            page_sequence_number,
            checksum: 0,
            page_segments,
            segment_table,
        };
        assert(header.magic@ =~= ogg_magic());
        header
    }

    /// Writes the header as it stands in a stream.
    pub fn to_bytes(&self) -> (out: Vec<u8>)
        ensures
            out@ == self.bytes(),
    {
        let mut out: Vec<u8> = Vec::new();
        push_bytes(&mut out, self.magic.as_slice());
        out.push(self.version);
        out.push(self.header_type);
        push_u64_le(&mut out, self.granule_position);
        push_u32_le(&mut out, self.stream_serial_number);
        push_u32_le(&mut out, self.page_sequence_number);
        push_u32_le(&mut out, self.checksum);
        out.push(self.page_segments);
        push_bytes(&mut out, self.segment_table.as_slice());
        assert(out@ =~= self.bytes());
        out
    }
}

/// The body of a page.
#[derive(Clone, Debug)]
pub struct OggBody {
    pub data: Vec<u8>,
}

impl OggBody {
    pub fn new(data: Vec<u8>) -> (body: Self)
        ensures
            body.data@ == data@,
    {
        Self { data }
    }

    /// Hands out the bytes of the body.
    pub fn to_bytes(self) -> (out: Vec<u8>)
        ensures
            out@ == self.data@,
    {
        self.data
    }
}

/// A page: a header and a body.
#[derive(Clone, Debug)]
pub struct OggPage {
    pub header: OggHeader,
    pub body: OggBody,
}

impl OggPage {
    /// The page as it stands in a stream.
    pub open spec fn bytes(&self) -> Seq<u8> {
        self.header.bytes() + self.body.data@
    }

    /// Whether the checksum in the header is that of the whole page, taken
    /// with the checksum field at zero.
    pub open spec fn is_sealed(&self) -> bool {
        self.header.checksum == crc32_ogg(self.header.unsealed_bytes() + self.body.data@)
    }

    /// A sealed page with the given header fields and body.
    pub fn new(
        header_type: u8,
        granule_position: u64,
        stream_serial_number: u32,
        page_sequence_number: u32,
        page_segments: u8,
        segment_table: Vec<u8>,
        body: Vec<u8>,
    ) -> (page: Self)
        ensures
            page.header.holds(
                header_type,
                granule_position,
                stream_serial_number,
                page_sequence_number,
                page_segments,
                segment_table@,
            ),
            page.body.data@ == body@,
            page.is_sealed(),
    {
        let mut header = OggHeader::new(
            header_type,
            granule_position,
            stream_serial_number,
            page_sequence_number,
            page_segments,
            segment_table,
        );
        let mut data = header.to_bytes();
        push_bytes(&mut data, body.as_slice());
        header.checksum = page_checksum(data.as_slice());
        Self { header, body: OggBody::new(body) }
    }

    /// Writes the page as it stands in a stream.
    pub fn to_bytes(&self) -> (out: Vec<u8>)
        ensures
            out@ == self.bytes(),
    {
        let mut out = self.header.to_bytes();
        push_bytes(&mut out, self.body.data.as_slice());
        out
    }
}

/// The lacing values of a packet of `len` bytes: one value for each run of
/// 255 bytes and one for what is left, if anything is.
pub open spec fn lacing(len: nat) -> Seq<u8>
    decreases len,
{
    if len == 0 {
        Seq::empty()
    } else if len <= 255 {
        seq![len as u8]
    } else {
        seq![255u8] + lacing((len - 255) as nat)
    }
}

/// The segment table of `len` bytes cut into packets of `segment_size` bytes,
/// the last of which may be shorter: the lacing values of each packet in turn.
pub open spec fn segment_table_of(len: nat, segment_size: nat) -> Seq<u8>
    decreases len,
{
    if len == 0 || segment_size == 0 {
        Seq::empty()
    } else if len <= segment_size {
        lacing(len)
    } else {
        lacing(segment_size) + segment_table_of((len - segment_size) as nat, segment_size)
    }
}

/// The segment table of `data` cut into packets of `segment_size` bytes.
pub fn get_segment_table(data: &[u8], segment_size: usize) -> (table: Vec<u8>)
    requires
        segment_size > 0,
    ensures
        table@ == segment_table_of(data@.len(), segment_size as nat),
{
    let mut table: Vec<u8> = Vec::new();
    let mut rest: usize = data.len();
    while rest > 0
        invariant
            segment_size > 0,
            table@ + segment_table_of(rest as nat, segment_size as nat) == segment_table_of(
                data@.len(),
                segment_size as nat,
            ),
        decreases rest,
    {
        let packet: usize = if rest < segment_size {
            rest
        } else {
            segment_size
        };
        let ghost before = table@;
        let ghost after = segment_table_of((rest - packet) as nat, segment_size as nat);
        assert(segment_table_of(rest as nat, segment_size as nat) =~= lacing(packet as nat)
            + after);
        let mut left: usize = packet;
        while left > 0
            invariant
                table@ + lacing(left as nat) == before + lacing(packet as nat),
            decreases left,
        {
            let segment: usize = if left < 255 {
                left
            } else {
                255
            };
            let ghost old_table = table@;
            table.push(segment as u8);
            left -= segment;
            assert(old_table + lacing((left + segment) as nat) =~= table@ + lacing(left as nat));
        }
        rest -= packet;
        assert(table@ =~= before + lacing(packet as nat));
        assert(table@ + after =~= before + (lacing(packet as nat) + after));
    }
    assert(table@ + Seq::<u8>::empty() =~= table@);
    table
}

/// The sealed page of version 0 with the given fields and body, whose segment
/// table is that of the body cut into packets of `segment_size` bytes. The
/// header holds the number of segments modulo 256.
pub open spec fn page_bytes(
    header_type: u8,
    granule_position: u64,
    stream_serial_number: u32,
    page_sequence_number: u32,
    body: Seq<u8>,
    segment_size: nat,
) -> Seq<u8> {
    let table = segment_table_of(body.len(), segment_size);
    let segments = (table.len() % 256) as u8;
    let unsealed = header_bytes(
        ogg_magic(),
        0,
        header_type,
        granule_position,
        stream_serial_number,
        page_sequence_number,
        0,
        segments,
        table,
    );
    header_bytes(
        ogg_magic(),
        0,
        header_type,
        granule_position,
        stream_serial_number,
        page_sequence_number,
        crc32_ogg(unsealed + body),
        segments,
        table,
    ) + body
}

/// Appends the sealed page with the given fields and body.
pub fn push_page(
    out: &mut Vec<u8>,
    header_type: u8,
    granule_position: u64,
    stream_serial_number: u32,
    page_sequence_number: u32,
    body: &[u8],
    segment_size: usize,
)
    requires
        segment_size > 0,
    ensures
        final(out)@ == old(out)@ + page_bytes(
            header_type,
            granule_position,
            stream_serial_number,
            page_sequence_number,
            body@,
            segment_size as nat,
        ),
{
    let table = get_segment_table(body, segment_size);
    let page = OggPage::new(
        header_type,
        granule_position,
        stream_serial_number,
        page_sequence_number,
        (table.len() % 256) as u8,
        table,
        vstd::slice::slice_to_vec(body),
    );
    let bytes = page.to_bytes();
    push_bytes(out, bytes.as_slice());
}

/// Two sealed pages with the same header fields, whose bodies have one
/// length and differ in one byte and in no other, have different checksums.
pub proof fn lemma_changed_payload_byte_changes_the_checksum(
    page: OggPage,
    other: OggPage,
    at: int,
)
    requires
        page.is_sealed(),
        other.is_sealed(),
        page.header.unsealed_bytes() == other.header.unsealed_bytes(),
        page.body.data@.len() == other.body.data@.len(),
        0 <= at < page.body.data@.len(),
        page.body.data@[at] != other.body.data@[at],
        forall|i: int|
            0 <= i < page.body.data@.len() && i != at ==> page.body.data@[i]
                == other.body.data@[i],
    ensures
        page.header.checksum != other.header.checksum,
{
    let header = page.header.unsealed_bytes();
    lemma_one_changed_byte_changes_the_checksum(
        header + page.body.data@,
        header + other.body.data@,
        header.len() + at,
    );
}

} // verus!
