//! Reading a capture stream: the global header once, then one record per pull.
use vstd::prelude::*;

use crate::error::PcapError;
use crate::packet::{next_record, Packet};
use crate::pcap_header::{header_result, PcapHeader};
use crate::peek_reader::{ByteSource, PeekReader};

verus! {

/// Where a reader stands after its header was parsed.
#[derive(Debug, Clone, Copy, PartialEq, Eq, Structural)]
pub enum ReaderState {
    /// Records may follow.
    Streaming,
    /// The stream ended cleanly at a record boundary.
    Exhausted,
    /// A record could not be decoded; nothing more is read.
    Failed,
}

/// Reads a pcap stream from a byte source, one packet per call of `next`.
/// Between calls nothing is held back from the source: every byte not yet
/// decoded is still in it.
pub struct PcapReader {
    pub header: PcapHeader,
    source: ByteSource,
    state: ReaderState,
}

impl PcapReader {
    /// The wrapped byte source.
    pub closed spec fn source(&self) -> ByteSource {
        self.source
    }

    /// The bytes not yet consumed.
    pub open spec fn remaining(&self) -> Seq<u8> {
        self.source().view()
    }

    /// The stream's global header.
    pub closed spec fn header_spec(&self) -> PcapHeader {
        self.header
    }

    pub closed spec fn status(&self) -> ReaderState {
        self.state
    }

    /// Parses the global header from `source`, so that header errors come before any record.
    pub fn new(source: ByteSource) -> (r: Result<PcapReader, PcapError>)
        ensures
            match header_result(source.view()) {
                Ok(h) => r matches Ok(rd) && rd.header_spec() == h && rd.remaining()
                    == source.view().skip(24) && rd.status() == ReaderState::Streaming,
                Err(err) => r matches Err(x) && x == err,
            },
    {
        let mut reader = PeekReader::new(source);
        match PcapHeader::from_reader(&mut reader) {
            Ok(header) => Ok(
                PcapReader { header, source: reader.into_inner(), state: ReaderState::Streaming },
            ),
            Err(err) => Err(err),
        }
    }

    /// The stream's global header.
    pub fn header(&self) -> (h: PcapHeader)
        ensures
            h == self.header_spec(),
    {
        self.header
    }

    /// Consumes the reader, returning the wrapped source with every byte not yet decoded.
    pub fn into_reader(self) -> (r: ByteSource)
        ensures
            r == self.source(),
            r.view() == self.remaining(),
    {
        self.source
    }

    /// The wrapped source. Reading from it directly is not advised.
    pub fn get_ref(&self) -> (r: &ByteSource)
        ensures
            *r == self.source(),
            r.view() == self.remaining(),
    {
        &self.source
    }

    /// The wrapped source, mutably. Reading from it directly is not advised.
    pub fn get_mut(&mut self) -> (r: &mut ByteSource)
        ensures
            *r == old(self).source(),
            final(self).source() == *final(r),
            final(self).header_spec() == old(self).header_spec(),
            final(self).status() == old(self).status(),
    {
        &mut self.source
    }

    /// The next packet; `None` at a clean end of the stream, and from then on.
    /// After an error the reader is `Failed` and yields nothing more.
    pub fn next(&mut self) -> (r: Option<Result<Packet, PcapError>>)
        ensures
            final(self).header_spec() == old(self).header_spec(),
            old(self).status() != ReaderState::Streaming ==> r is None && final(self).status()
                == old(self).status() && final(self).remaining() == old(self).remaining(),
            old(self).status() == ReaderState::Streaming ==> match next_record(
                old(self).remaining(),
                old(self).header_spec().byte_order,
            ) {
                None => r is None && final(self).status() == ReaderState::Exhausted
                    && final(self).remaining() == old(self).remaining(),
                Some(Err(err)) => (r matches Some(Err(x)) && x == err) && final(self).status()
                    == ReaderState::Failed && final(self).remaining().len() == 0,
                Some(Ok((p, rest))) => (r matches Some(Ok(q)) && q@ == p) && final(self).remaining()
                    == rest && final(self).status() == ReaderState::Streaming,
            },
    {
        match self.state {
            ReaderState::Streaming => {},
            _ => return None,
        }
        let mut source = ByteSource::new(Vec::new());
        std::mem::swap(&mut source, &mut self.source);
        let mut reader = PeekReader::new(source);
        let r = if reader.is_empty() {
            self.state = ReaderState::Exhausted;
            None
        } else {
            match Packet::from_reader(&mut reader, self.header.byte_order) {
                Ok(p) => Some(Ok(p)),
                Err(err) => {
                    self.state = ReaderState::Failed;
                    Some(Err(err))
                },
            }
        };
        self.source = reader.into_inner();
        r
    }
}

} // verus!
