//! The 24-byte global header that opens every capture stream.
use vstd::prelude::*;

use crate::bytes::{
    i32_bits, i32_from_bits, i32_of_bits, i32_to_bits, push_u16, push_u32, read_u16, read_u32,
    u16_bytes, u16_of, u32_bytes, u32_of, Endianness,
};
use crate::error::PcapError;
use crate::peek_reader::PeekReader;

verus! {

/// The unit of a record's fractional timestamp.
#[derive(Debug, Clone, Copy, PartialEq, Eq, Structural)]
pub enum TsResolution {
    Microsecond,
    Nanosecond,
}

/// The global header of a capture stream.
#[derive(Debug, Clone, Copy, PartialEq, Eq, Structural)]
pub struct PcapHeader {
    /// Byte order of every field after the magic number, and of every record.
    pub byte_order: Endianness,
    /// Unit of every record's fractional timestamp.
    pub timestamp_unit: TsResolution,
    pub version_major: u16,
    pub version_minor: u16,
    /// Seconds east of UTC.
    pub time_zone_offset: i32,
    pub timestamp_accuracy: u32,
    /// Advisory maximum of captured bytes per record; not enforced.
    pub snapshot_length: u32,
    /// Link-layer type code.
    pub link_type: u32,
}


/// The four magic-number bytes that announce order `e` and unit `u`.
pub open spec fn magic_bytes(e: Endianness, u: TsResolution) -> Seq<u8> {
    match (e, u) {
        (Endianness::Big, TsResolution::Microsecond) => seq![0xa1u8, 0xb2u8, 0xc3u8, 0xd4u8],
        (Endianness::Little, TsResolution::Microsecond) => seq![0xd4u8, 0xc3u8, 0xb2u8, 0xa1u8],
        (Endianness::Big, TsResolution::Nanosecond) => seq![0xa1u8, 0xb2u8, 0x3cu8, 0x4du8],
        (Endianness::Little, TsResolution::Nanosecond) => seq![0x4du8, 0x3cu8, 0xb2u8, 0xa1u8],
    }
}

/// The order and unit that four magic-number bytes announce, if they are recognised.
pub open spec fn magic_kind(m: Seq<u8>) -> Option<(Endianness, TsResolution)> {
    if m == magic_bytes(Endianness::Big, TsResolution::Microsecond) {
        Some((Endianness::Big, TsResolution::Microsecond))
    } else if m == magic_bytes(Endianness::Little, TsResolution::Microsecond) {
        Some((Endianness::Little, TsResolution::Microsecond))
    } else if m == magic_bytes(Endianness::Big, TsResolution::Nanosecond) {
        Some((Endianness::Big, TsResolution::Nanosecond))
    } else if m == magic_bytes(Endianness::Little, TsResolution::Nanosecond) {
        Some((Endianness::Little, TsResolution::Nanosecond))
    } else {
        None
    }
}

/// The header's bytes on the wire.
pub open spec fn header_bytes(h: PcapHeader) -> Seq<u8> {
    let e = h.byte_order;
    magic_bytes(e, h.timestamp_unit) + u16_bytes(h.version_major, e) + u16_bytes(
        h.version_minor,
        e,
    ) + u32_bytes(i32_bits(h.time_zone_offset), e) + u32_bytes(h.timestamp_accuracy, e)
        + u32_bytes(h.snapshot_length, e) + u32_bytes(h.link_type, e)
}

/// The header whose fields stand in bytes 4 to 24 of `b`, in order `e`.
pub open spec fn header_fields(b: Seq<u8>, e: Endianness, u: TsResolution) -> PcapHeader {
    PcapHeader {
        byte_order: e,
        timestamp_unit: u,
        version_major: u16_of(b.subrange(4, 6), e),
        version_minor: u16_of(b.subrange(6, 8), e),
        time_zone_offset: i32_from_bits(u32_of(b.subrange(8, 12), e)),
        timestamp_accuracy: u32_of(b.subrange(12, 16), e),
        snapshot_length: u32_of(b.subrange(16, 20), e),
        link_type: u32_of(b.subrange(20, 24), e),
    }
}

/// What parsing a global header from the start of `b` gives.
pub open spec fn header_result(b: Seq<u8>) -> Result<PcapHeader, PcapError> {
    if b.len() < 4 {
        Err(PcapError::Truncated)
    } else {
        match magic_kind(b.take(4)) {
            None => Err(PcapError::UnknownMagicNumber),
            Some((e, u)) => if b.len() < 24 {
                Err(PcapError::Truncated)
            } else {
                Ok(header_fields(b, e, u))
            },
        }
    }
}

/// The order and unit announced by the first four bytes of `m`, if recognised.
fn magic_of(m: &Vec<u8>) -> (r: Option<(Endianness, TsResolution)>)
    requires
        m@.len() == 4,
    ensures
        r == magic_kind(m@),
{
    let (b0, b1, b2, b3) = (m[0], m[1], m[2], m[3]);
    let big_micro = b0 == 0xa1 && b1 == 0xb2 && b2 == 0xc3 && b3 == 0xd4;
    let little_micro = b0 == 0xd4 && b1 == 0xc3 && b2 == 0xb2 && b3 == 0xa1;
    let big_nano = b0 == 0xa1 && b1 == 0xb2 && b2 == 0x3c && b3 == 0x4d;
    let little_nano = b0 == 0x4d && b1 == 0x3c && b2 == 0xb2 && b3 == 0xa1;
    proof {
        let ghost s = m@;
        assert(big_micro == (s =~= magic_bytes(Endianness::Big, TsResolution::Microsecond)));
        assert(little_micro == (s =~= magic_bytes(Endianness::Little, TsResolution::Microsecond)));
        assert(big_nano == (s =~= magic_bytes(Endianness::Big, TsResolution::Nanosecond)));
        assert(little_nano == (s =~= magic_bytes(Endianness::Little, TsResolution::Nanosecond)));
    }
    if big_micro {
        Some((Endianness::Big, TsResolution::Microsecond))
    } else if little_micro {
        Some((Endianness::Little, TsResolution::Microsecond))
    } else if big_nano {
        Some((Endianness::Big, TsResolution::Nanosecond))
    } else if little_nano {
        Some((Endianness::Little, TsResolution::Nanosecond))
    } else {
        None
    }
}

impl PcapHeader {
    /// Parses a global header from `reader`, discovering the byte order and the
    /// timestamp unit from the magic number.
    pub fn from_reader(reader: &mut PeekReader) -> (r: Result<PcapHeader, PcapError>)
        ensures
            r == header_result(old(reader).view()),
            r is Ok ==> final(reader).view() == old(reader).view().skip(24),
            final(reader).held() == Seq::<u8>::empty(),
    {
        let ghost start = reader.view();
        let magic = match reader.read_exact(4) {
            Ok(m) => m,
            Err(err) => return Err(err),
        };
        assert(magic@ =~= start.take(4));
        let (e, u) = match magic_of(&magic) {
            Some(k) => k,
            None => return Err(PcapError::UnknownMagicNumber),
        };
        let ghost mid = reader.view();
        let rest = match reader.read_exact(20) {
            Ok(v) => v,
            Err(err) => return Err(err),
        };
        proof {
            assert(start =~= magic@ + mid);
            assert(reader.view() =~= start.skip(24));
        }
        let h = PcapHeader {
            byte_order: e,
            timestamp_unit: u,
            version_major: read_u16(&rest, 0, e),
            version_minor: read_u16(&rest, 2, e),
            time_zone_offset: i32_of_bits(read_u32(&rest, 4, e)),
            timestamp_accuracy: read_u32(&rest, 8, e),
            snapshot_length: read_u32(&rest, 12, e),
            link_type: read_u32(&rest, 16, e),
        };
        proof {
            assert(rest@.subrange(0, 2) =~= start.subrange(4, 6));
            assert(rest@.subrange(2, 4) =~= start.subrange(6, 8));
            assert(rest@.subrange(4, 8) =~= start.subrange(8, 12));
            assert(rest@.subrange(8, 12) =~= start.subrange(12, 16));
            assert(rest@.subrange(12, 16) =~= start.subrange(16, 20));
            assert(rest@.subrange(16, 20) =~= start.subrange(20, 24));
        }
        Ok(h)
    }

    /// Appends the header's 24 bytes to `out`.
    pub fn write_to(&self, out: &mut Vec<u8>)
        ensures
            final(out)@ == old(out)@ + header_bytes(*self),
    {
        let e = self.byte_order;
        let magic: [u8; 4] = match (e, self.timestamp_unit) {
            (Endianness::Big, TsResolution::Microsecond) => [0xa1, 0xb2, 0xc3, 0xd4],
            (Endianness::Little, TsResolution::Microsecond) => [0xd4, 0xc3, 0xb2, 0xa1],
            (Endianness::Big, TsResolution::Nanosecond) => [0xa1, 0xb2, 0x3c, 0x4d],
            (Endianness::Little, TsResolution::Nanosecond) => [0x4d, 0x3c, 0xb2, 0xa1],
        };
        out.push(magic[0]);
        out.push(magic[1]);
        out.push(magic[2]);
        out.push(magic[3]);
        assert(out@ =~= old(out)@ + magic_bytes(e, self.timestamp_unit));
        push_u16(out, self.version_major, e);
        push_u16(out, self.version_minor, e);
        push_u32(out, i32_to_bits(self.time_zone_offset), e);
        push_u32(out, self.timestamp_accuracy, e);
        push_u32(out, self.snapshot_length, e);
        push_u32(out, self.link_type, e);
        assert(out@ =~= old(out)@ + header_bytes(*self));
    }
}

} // verus!
