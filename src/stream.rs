//! Whole streams: their bytes, what reading them gives, and the laws that tie
//! reading to writing.
use vstd::prelude::*;

use crate::bytes::{
    lemma_i32_bits_of, lemma_i32_round_trip, lemma_u16_bytes_of, lemma_u16_round_trip,
    lemma_u32_bytes_of, lemma_u32_round_trip, Endianness,
};
use crate::error::PcapError;
use crate::packet::{
    next_record, packet_bytes, packet_wf, record_complete, record_len, record_result, record_view,
    PacketView,
};
use crate::pcap_header::{
    header_bytes, header_result, magic_bytes, magic_kind, PcapHeader, TsResolution,
};

verus! {

/// The bytes of the records `ps`, one after another, in order `e`.
pub open spec fn records_bytes(ps: Seq<PacketView>, e: Endianness) -> Seq<u8>
    decreases ps.len(),
{
    if ps.len() == 0 {
        Seq::empty()
    } else {
        packet_bytes(ps[0], e) + records_bytes(ps.skip(1), e)
    }
}

/// The bytes of a stream: header `h`, then the records `ps` in its byte order.
pub open spec fn stream_bytes(h: PcapHeader, ps: Seq<PacketView>) -> Seq<u8> {
    header_bytes(h) + records_bytes(ps, h.byte_order)
}

/// The records that successive pulls take from `b` up to a clean end, or the
/// first error met.
pub open spec fn decode_records(b: Seq<u8>, e: Endianness) -> Result<Seq<PacketView>, PcapError>
    decreases b.len(),
{
    if b.len() == 0 {
        Ok(Seq::empty())
    } else if !record_complete(b, e) {
        Err(PcapError::Truncated)
    } else {
        match decode_records(b.skip(record_len(b, e)), e) {
            Ok(ps) => Ok(seq![record_view(b, e)] + ps),
            Err(err) => Err(err),
        }
    }
}

/// What reading the whole stream `b` gives: its header and all its records.
pub open spec fn decode_stream(b: Seq<u8>) -> Result<(PcapHeader, Seq<PacketView>), PcapError> {
    match header_result(b) {
        Err(err) => Err(err),
        Ok(h) => match decode_records(b.skip(24), h.byte_order) {
            Ok(ps) => Ok((h, ps)),
            Err(err) => Err(err),
        },
    }
}

/// `decode_records` takes one step exactly as one pull of a reader does.
pub proof fn lemma_decode_records_step(b: Seq<u8>, e: Endianness)
    ensures
        decode_records(b, e) == match next_record(b, e) {
            None => Ok(Seq::empty()),
            Some(Err(err)) => Err(err),
            Some(Ok((p, rest))) => match decode_records(rest, e) {
                Ok(ps) => Ok(seq![p] + ps),
                Err(err) => Err(err),
            },
        },
{
}

proof fn lemma_magic_kind(e: Endianness, u: TsResolution)
    ensures
        magic_kind(magic_bytes(e, u)) == Some((e, u)),
{
    let bm = magic_bytes(Endianness::Big, TsResolution::Microsecond);
    let lm = magic_bytes(Endianness::Little, TsResolution::Microsecond);
    let bn = magic_bytes(Endianness::Big, TsResolution::Nanosecond);
    let ln = magic_bytes(Endianness::Little, TsResolution::Nanosecond);
    assert(bm[0] != lm[0] && bm[0] != ln[0] && lm[0] != ln[0]);
    assert(bm[2] != bn[2] && lm[0] != bn[0]);
}

/// The bytes that `write_to` gives for a header parse back to that header, and
/// reading goes on right after them.
pub proof fn lemma_header_round_trip(h: PcapHeader, rest: Seq<u8>)
    ensures
        header_bytes(h).len() == 24,
        header_result(header_bytes(h) + rest) == Ok::<PcapHeader, PcapError>(h),
        (header_bytes(h) + rest).skip(24) == rest,
{
    let e = h.byte_order;
    let u = h.timestamp_unit;
    let b = header_bytes(h) + rest;
    lemma_u16_round_trip(h.version_major, e);
    lemma_u16_round_trip(h.version_minor, e);
    lemma_u32_round_trip(crate::bytes::i32_bits(h.time_zone_offset), e);
    lemma_i32_round_trip(h.time_zone_offset);
    lemma_u32_round_trip(h.timestamp_accuracy, e);
    lemma_u32_round_trip(h.snapshot_length, e);
    lemma_u32_round_trip(h.link_type, e);
    lemma_magic_kind(e, u);
    assert(b.take(4) =~= magic_bytes(e, u));
    assert(b.subrange(4, 6) =~= crate::bytes::u16_bytes(h.version_major, e));
    assert(b.subrange(6, 8) =~= crate::bytes::u16_bytes(h.version_minor, e));
    assert(b.subrange(8, 12) =~= crate::bytes::u32_bytes(
        crate::bytes::i32_bits(h.time_zone_offset),
        e,
    ));
    assert(b.subrange(12, 16) =~= crate::bytes::u32_bytes(h.timestamp_accuracy, e));
    assert(b.subrange(16, 20) =~= crate::bytes::u32_bytes(h.snapshot_length, e));
    assert(b.subrange(20, 24) =~= crate::bytes::u32_bytes(h.link_type, e));
    assert(b.skip(24) =~= rest);
}

/// A well-formed packet's bytes decode back to that packet, and reading goes on
/// right after them.
pub proof fn lemma_record_round_trip(p: PacketView, e: Endianness, rest: Seq<u8>)
    requires
        packet_wf(p),
    ensures
        record_result(packet_bytes(p, e) + rest, e) == Ok::<(PacketView, Seq<u8>), PcapError>(
            (p, rest),
        ),
        next_record(packet_bytes(p, e) + rest, e) == Some(
            Ok::<(PacketView, Seq<u8>), PcapError>((p, rest)),
        ),
        packet_bytes(p, e).len() >= 16,
{
    let b = packet_bytes(p, e) + rest;
    lemma_u32_round_trip(p.timestamp_seconds, e);
    lemma_u32_round_trip(p.timestamp_fraction, e);
    lemma_u32_round_trip(p.captured_length, e);
    lemma_u32_round_trip(p.original_length, e);
    assert(b.subrange(0, 4) =~= crate::bytes::u32_bytes(p.timestamp_seconds, e));
    assert(b.subrange(4, 8) =~= crate::bytes::u32_bytes(p.timestamp_fraction, e));
    assert(b.subrange(8, 12) =~= crate::bytes::u32_bytes(p.captured_length, e));
    assert(b.subrange(12, 16) =~= crate::bytes::u32_bytes(p.original_length, e));
    assert(record_len(b, e) == 16 + p.captured_length);
    assert(b.subrange(16, record_len(b, e)) =~= p.payload);
    assert(b.skip(record_len(b, e)) =~= rest);
    assert(record_view(b, e) == p);
}

proof fn lemma_records_round_trip(ps: Seq<PacketView>, e: Endianness)
    requires
        forall|i: int| 0 <= i < ps.len() ==> packet_wf(#[trigger] ps[i]),
    ensures
        decode_records(records_bytes(ps, e), e) == Ok::<Seq<PacketView>, PcapError>(ps),
    decreases ps.len(),
{
    if ps.len() > 0 {
        let tail = ps.skip(1);
        assert forall|i: int| 0 <= i < tail.len() implies packet_wf(#[trigger] tail[i]) by {
            assert(tail[i] == ps[i + 1]);
        }
        lemma_records_round_trip(tail, e);
        lemma_record_round_trip(ps[0], e, records_bytes(tail, e));
        lemma_decode_records_step(records_bytes(ps, e), e);
        assert(seq![ps[0]] + tail =~= ps);
    } else {
        assert(ps =~= Seq::<PacketView>::empty());
    }
}

/// Writing a header and well-formed records, then reading the bytes back, gives
/// that header and those records, in order.
pub proof fn lemma_stream_round_trip(h: PcapHeader, ps: Seq<PacketView>)
    requires
        forall|i: int| 0 <= i < ps.len() ==> packet_wf(#[trigger] ps[i]),
    ensures
        decode_stream(stream_bytes(h, ps)) == Ok::<(PcapHeader, Seq<PacketView>), PcapError>(
            (h, ps),
        ),
{
    lemma_header_round_trip(h, records_bytes(ps, h.byte_order));
    lemma_records_round_trip(ps, h.byte_order);
}

/// A header that parses is written back as the first 24 bytes it was parsed from.
pub proof fn lemma_header_reencodes(b: Seq<u8>)
    requires
        header_result(b) is Ok,
    ensures
        header_result(b) matches Ok(h) && header_bytes(h) == b.take(24),
{
    let h = header_result(b)->Ok_0;
    let e = h.byte_order;
    assert(magic_bytes(e, h.timestamp_unit) == b.take(4));
    lemma_u16_bytes_of(b.subrange(4, 6), e);
    lemma_u16_bytes_of(b.subrange(6, 8), e);
    lemma_u32_bytes_of(b.subrange(8, 12), e);
    lemma_i32_bits_of(crate::bytes::u32_of(b.subrange(8, 12), e));
    lemma_u32_bytes_of(b.subrange(12, 16), e);
    lemma_u32_bytes_of(b.subrange(16, 20), e);
    lemma_u32_bytes_of(b.subrange(20, 24), e);
    assert(header_bytes(h) =~= b.take(24));
}

/// A record that decodes is well formed, and is written back as the bytes it was
/// decoded from.
pub proof fn lemma_record_reencodes(b: Seq<u8>, e: Endianness)
    requires
        record_result(b, e) is Ok,
    ensures
        record_result(b, e) matches Ok((p, rest)) && packet_wf(p) && packet_bytes(p, e) + rest
            == b,
{
    let p = record_view(b, e);
    lemma_u32_bytes_of(b.subrange(0, 4), e);
    lemma_u32_bytes_of(b.subrange(4, 8), e);
    lemma_u32_bytes_of(b.subrange(8, 12), e);
    lemma_u32_bytes_of(b.subrange(12, 16), e);
    assert(packet_bytes(p, e) + b.skip(record_len(b, e)) =~= b);
}

/// Records that decode up to a clean end are well formed, and are written back as
/// the bytes they were decoded from.
pub proof fn lemma_records_reencode(b: Seq<u8>, e: Endianness)
    requires
        decode_records(b, e) is Ok,
    ensures
        decode_records(b, e) matches Ok(ps) && records_bytes(ps, e) == b && forall|i: int|
            0 <= i < ps.len() ==> packet_wf(#[trigger] ps[i]),
    decreases b.len(),
{
    if b.len() == 0 {
        assert(records_bytes(Seq::<PacketView>::empty(), e) =~= b);
    } else {
        let rest = b.skip(record_len(b, e));
        lemma_records_reencode(rest, e);
        lemma_record_reencodes(b, e);
        let tail = decode_records(rest, e)->Ok_0;
        let ps = seq![record_view(b, e)] + tail;
        assert(ps.skip(1) =~= tail);
        assert(ps[0] == record_view(b, e));
        assert forall|i: int| 0 <= i < ps.len() implies packet_wf(#[trigger] ps[i]) by {
            if i > 0 {
                assert(ps[i] == tail[i - 1]);
            }
        }
    }
}

/// A stream that reads to a clean end is written back, header and records in the
/// order read, as exactly the bytes it was read from.
pub proof fn lemma_stream_reencodes(b: Seq<u8>)
    requires
        decode_stream(b) is Ok,
    ensures
        decode_stream(b) matches Ok((h, ps)) && stream_bytes(h, ps) == b && forall|i: int|
            0 <= i < ps.len() ==> packet_wf(#[trigger] ps[i]),
{
    lemma_header_reencodes(b);
    let h = header_result(b)->Ok_0;
    lemma_records_reencode(b.skip(24), h.byte_order);
    assert(b.take(24) + b.skip(24) =~= b);
}

/// Each of the four recognised magic numbers, ahead of a whole header, gives its
/// byte order and timestamp unit; any other first four bytes are refused as an
/// unknown magic number.
pub proof fn lemma_magic_number_coverage(b: Seq<u8>)
    requires
        b.len() >= 24,
    ensures
        forall|e: Endianness, u: TsResolution|
            b.take(4) == #[trigger] magic_bytes(e, u) ==> (header_result(b) matches Ok(h)
                && h.byte_order == e && h.timestamp_unit == u),
        (forall|e: Endianness, u: TsResolution| b.take(4) != #[trigger] magic_bytes(e, u))
            ==> header_result(b) == Err::<PcapHeader, PcapError>(PcapError::UnknownMagicNumber),
{
    assert forall|e: Endianness, u: TsResolution|
        b.take(4) == #[trigger] magic_bytes(e, u) implies (header_result(b) matches Ok(h)
        && h.byte_order == e && h.timestamp_unit == u) by {
        lemma_magic_kind(e, u);
    }
    if forall|e: Endianness, u: TsResolution| b.take(4) != #[trigger] magic_bytes(e, u) {
        assert(b.take(4) != magic_bytes(Endianness::Big, TsResolution::Microsecond));
        assert(b.take(4) != magic_bytes(Endianness::Little, TsResolution::Microsecond));
        assert(b.take(4) != magic_bytes(Endianness::Big, TsResolution::Nanosecond));
        assert(b.take(4) != magic_bytes(Endianness::Little, TsResolution::Nanosecond));
    }
}

/// A stream of a header and no records ends cleanly on the first pull.
pub proof fn lemma_clean_end(h: PcapHeader)
    ensures
        header_result(header_bytes(h)) == Ok::<PcapHeader, PcapError>(h),
        next_record(header_bytes(h).skip(24), h.byte_order) is None,
{
    lemma_header_round_trip(h, Seq::empty());
    assert(header_bytes(h) + Seq::empty() =~= header_bytes(h));
}

/// After a whole record, fewer bytes than a record header fail the next pull as
/// truncated, while the pull of the record itself succeeds.
pub proof fn lemma_truncated_tail(h: PcapHeader, p: PacketView, stray: Seq<u8>)
    requires
        packet_wf(p),
        0 < stray.len() < 16,
    ensures
        ({
            let b = header_bytes(h) + packet_bytes(p, h.byte_order) + stray;
            &&& header_result(b) == Ok::<PcapHeader, PcapError>(h)
            &&& next_record(b.skip(24), h.byte_order) == Some(
                Ok::<(PacketView, Seq<u8>), PcapError>((p, stray)),
            )
            &&& next_record(stray, h.byte_order) == Some(
                Err::<(PacketView, Seq<u8>), PcapError>(PcapError::Truncated),
            )
        }),
{
    let e = h.byte_order;
    let b = header_bytes(h) + packet_bytes(p, e) + stray;
    assert(b =~= header_bytes(h) + (packet_bytes(p, e) + stray));
    lemma_header_round_trip(h, packet_bytes(p, e) + stray);
    lemma_record_round_trip(p, e, stray);
}

/// A record header whose captured length is zero decodes to a packet with an
/// empty payload, and reading goes on right after the 16 header bytes.
pub proof fn lemma_empty_payload(b: Seq<u8>, e: Endianness)
    requires
        b.len() >= 16,
        crate::bytes::u32_of(b.subrange(8, 12), e) == 0,
    ensures
        record_result(b, e) matches Ok((p, rest)) && p.payload.len() == 0 && p.captured_length
            == 0 && rest == b.skip(16),
{
}

/// The same header and records written in the two byte orders give different
/// bytes, which read back to the same values but for the byte order.
pub proof fn lemma_byte_order_isolation(h: PcapHeader, ps: Seq<PacketView>)
    requires
        forall|i: int| 0 <= i < ps.len() ==> packet_wf(#[trigger] ps[i]),
    ensures
        ({
            let hb = PcapHeader { byte_order: Endianness::Big, ..h };
            let hl = PcapHeader { byte_order: Endianness::Little, ..h };
            &&& stream_bytes(hb, ps) != stream_bytes(hl, ps)
            &&& decode_stream(stream_bytes(hb, ps)) == Ok::<
                (PcapHeader, Seq<PacketView>),
                PcapError,
            >((hb, ps))
            &&& decode_stream(stream_bytes(hl, ps)) == Ok::<
                (PcapHeader, Seq<PacketView>),
                PcapError,
            >((hl, ps))
        }),
{
    let hb = PcapHeader { byte_order: Endianness::Big, ..h };
    let hl = PcapHeader { byte_order: Endianness::Little, ..h };
    lemma_stream_round_trip(hb, ps);
    lemma_stream_round_trip(hl, ps);
    assert(stream_bytes(hb, ps)[0] != stream_bytes(hl, ps)[0]) by {
        lemma_header_round_trip(hb, records_bytes(ps, Endianness::Big));
        lemma_header_round_trip(hl, records_bytes(ps, Endianness::Little));
        assert(header_bytes(hb)[0] == 0xa1u8);
        assert(header_bytes(hl)[0] != 0xa1u8);
    }
}

} // verus!
