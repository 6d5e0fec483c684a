//! Writing a capture stream: the global header first, then one record per call.
use vstd::prelude::*;

use crate::packet::{packet_bytes, Packet};
use crate::pcap_header::{header_bytes, PcapHeader};

verus! {

/// Writes a pcap stream into a byte sink, with the byte order fixed by its header.
pub struct PcapWriter {
    pub header: PcapHeader,
    sink: Vec<u8>,
}

impl PcapWriter {
    /// The stream's global header.
    pub closed spec fn header_spec(&self) -> PcapHeader {
        self.header
    }

    /// Everything the sink holds so far.
    pub closed spec fn written(&self) -> Seq<u8> {
        self.sink@
    }

    /// Writes `header` to `sink` at once; every later record follows its byte order.
    pub fn new(sink: Vec<u8>, header: PcapHeader) -> (w: PcapWriter)
        ensures
            w.header_spec() == header,
            w.written() == sink@ + header_bytes(header),
    {
        let mut sink = sink;
        header.write_to(&mut sink);
        PcapWriter { header, sink }
    }

    /// The stream's global header.
    pub fn header(&self) -> (h: PcapHeader)
        ensures
            h == self.header_spec(),
    {
        self.header
    }

    /// Appends one record in the header's byte order; the payload is written as it is.
    pub fn write_packet(&mut self, packet: &Packet)
        ensures
            final(self).header_spec() == old(self).header_spec(),
            final(self).written() == old(self).written() + packet_bytes(
                packet@,
                old(self).header_spec().byte_order,
            ),
    {
        packet.write_to(&mut self.sink, self.header.byte_order);
    }

    /// Consumes the writer, returning the sink.
    pub fn into_writer(self) -> (r: Vec<u8>)
        ensures
            r@ == self.written(),
    {
        self.sink
    }

    /// The sink.
    pub fn get_ref(&self) -> (r: &Vec<u8>)
        ensures
            r@ == self.written(),
    {
        &self.sink
    }
}

} // verus!
