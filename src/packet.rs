//! One packet record: a 16-byte record header and the captured bytes.
use vstd::prelude::*;

use crate::bytes::{push_u32, read_u32, u32_bytes, u32_of, Endianness};
use crate::error::PcapError;
use crate::peek_reader::PeekReader;

verus! {

/// One captured packet.
#[derive(Debug, Clone, PartialEq, Eq)]
pub struct Packet {
    pub timestamp_seconds: u32,
    /// Microseconds or nanoseconds, as the stream's header says; not range-checked.
    pub timestamp_fraction: u32,
    /// Number of payload bytes; a well-formed packet has exactly this many.
    pub captured_length: u32,
    /// Length of the packet before capture truncated it.
    pub original_length: u32,
    pub payload: Vec<u8>,
}

/// The mathematical content of a `Packet`.
pub struct PacketView {
    pub timestamp_seconds: u32,
    pub timestamp_fraction: u32,
    pub captured_length: u32,
    pub original_length: u32,
    pub payload: Seq<u8>,
}

impl View for Packet {
    type V = PacketView;

    open spec fn view(&self) -> PacketView {
        PacketView {
            timestamp_seconds: self.timestamp_seconds,
            timestamp_fraction: self.timestamp_fraction,
            captured_length: self.captured_length,
            original_length: self.original_length,
            payload: self.payload@,
        }
    }
}

/// A packet whose payload is exactly as long as its captured length says.
pub open spec fn packet_wf(p: PacketView) -> bool {
    p.payload.len() == p.captured_length
}

/// The packet's bytes on the wire, in order `e`.
pub open spec fn packet_bytes(p: PacketView, e: Endianness) -> Seq<u8> {
    u32_bytes(p.timestamp_seconds, e) + u32_bytes(p.timestamp_fraction, e) + u32_bytes(
        p.captured_length,
        e,
    ) + u32_bytes(p.original_length, e) + p.payload
}

/// The whole length of the record at the start of `b`, as its header gives it.
pub open spec fn record_len(b: Seq<u8>, e: Endianness) -> int {
    16 + u32_of(b.subrange(8, 12), e)
}

/// The record at the start of `b`.
pub open spec fn record_view(b: Seq<u8>, e: Endianness) -> PacketView {
    PacketView {
        timestamp_seconds: u32_of(b.subrange(0, 4), e),
        timestamp_fraction: u32_of(b.subrange(4, 8), e),
        captured_length: u32_of(b.subrange(8, 12), e),
        original_length: u32_of(b.subrange(12, 16), e),
        payload: b.subrange(16, record_len(b, e)),
    }
}

/// Whether `b` holds a whole record at its start.
pub open spec fn record_complete(b: Seq<u8>, e: Endianness) -> bool {
    b.len() >= 16 && b.len() >= record_len(b, e)
}

/// What decoding one record from the start of `b` gives: the packet and the bytes after it.
pub open spec fn record_result(b: Seq<u8>, e: Endianness) -> Result<
    (PacketView, Seq<u8>),
    PcapError,
> {
    if record_complete(b, e) {
        Ok((record_view(b, e), b.skip(record_len(b, e))))
    } else {
        Err(PcapError::Truncated)
    }
}

/// What pulling the next record from the stream `b` gives: `None` at a clean end.
pub open spec fn next_record(b: Seq<u8>, e: Endianness) -> Option<
    Result<(PacketView, Seq<u8>), PcapError>,
> {
    if b.len() == 0 {
        None
    } else {
        Some(record_result(b, e))
    }
}

impl Packet {
    /// Decodes one record from `reader` in order `e`.
    pub fn from_reader(reader: &mut PeekReader, e: Endianness) -> (r: Result<Packet, PcapError>)
        ensures
            match record_result(old(reader).view(), e) {
                Ok((p, rest)) => r matches Ok(q) && q@ == p && final(reader).view() == rest,
                Err(err) => r == Err::<Packet, PcapError>(err),
            },
            r is Err ==> final(reader).view().len() == 0,
            final(reader).held() == Seq::<u8>::empty(),
    {
        let ghost start = reader.view();
        let head = match reader.read_exact(16) {
            Ok(h) => h,
            Err(err) => return Err(err),
        };
        let ghost mid = reader.view();
        let timestamp_seconds = read_u32(&head, 0, e);
        let timestamp_fraction = read_u32(&head, 4, e);
        let captured_length = read_u32(&head, 8, e);
        let original_length = read_u32(&head, 12, e);
        proof {
            assert(start =~= head@ + mid);
            assert(head@.subrange(0, 4) =~= start.subrange(0, 4));
            assert(head@.subrange(4, 8) =~= start.subrange(4, 8));
            assert(head@.subrange(8, 12) =~= start.subrange(8, 12));
            assert(head@.subrange(12, 16) =~= start.subrange(12, 16));
        }
        let payload = match reader.read_exact(captured_length as usize) {
            Ok(v) => v,
            Err(err) => return Err(err),
        };
        proof {
            assert(payload@ =~= start.subrange(16, record_len(start, e)));
            assert(reader.view() =~= start.skip(record_len(start, e)));
        }
        Ok(Packet { timestamp_seconds, timestamp_fraction, captured_length, original_length, payload })
    }

    /// Appends the record's bytes to `out` in order `e`; the payload is written as it is.
    pub fn write_to(&self, out: &mut Vec<u8>, e: Endianness)
        ensures
            final(out)@ == old(out)@ + packet_bytes(self@, e),
    {
        push_u32(out, self.timestamp_seconds, e);
        push_u32(out, self.timestamp_fraction, e);
        push_u32(out, self.captured_length, e);
        push_u32(out, self.original_length, e);
        let ghost head = out@;
        let mut i: usize = 0;
        while i < self.payload.len()
            invariant
                i <= self.payload@.len(),
                out@ == head + self.payload@.take(i as int),
            decreases self.payload@.len() - i,
        {
            out.push(self.payload[i]);
            i = i + 1;
            assert(out@ =~= head + self.payload@.take(i as int));
        }
        assert(self.payload@.take(i as int) =~= self.payload@);
        assert(out@ =~= old(out)@ + packet_bytes(self@, e));
    }
}

} // verus!
