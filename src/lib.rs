//! A codec for the pcap capture format: a 24-byte global header followed by
//! packet records, every multi-byte field in the byte order that the header's
//! magic number announces.

pub mod bytes;
pub mod error;
pub mod peek_reader;
pub mod pcap_header;
pub mod packet;
pub mod reader;
pub mod writer;
pub mod stream;

pub use bytes::Endianness;
pub use error::PcapError;
pub use packet::Packet;
pub use pcap_header::{PcapHeader, TsResolution};
pub use peek_reader::{ByteSource, PeekReader};
pub use reader::{PcapReader, ReaderState};
pub use writer::PcapWriter;
