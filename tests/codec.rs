use pcap_file::{
    ByteSource, Endianness, Packet, PcapError, PcapHeader, PcapReader, PcapWriter, PeekReader,
    TsResolution,
};

fn header(byte_order: Endianness, timestamp_unit: TsResolution) -> PcapHeader {
    PcapHeader {
        byte_order,
        timestamp_unit,
        version_major: 2,
        version_minor: 4,
        time_zone_offset: 0,
        timestamp_accuracy: 0,
        snapshot_length: 65535,
        link_type: 1,
    }
}

fn packet(ts: u32, payload: Vec<u8>) -> Packet {
    Packet {
        timestamp_seconds: ts,
        timestamp_fraction: ts + 7,
        captured_length: payload.len() as u32,
        original_length: payload.len() as u32 + 10,
        payload,
    }
}

fn encode(h: PcapHeader, packets: &[Packet]) -> Vec<u8> {
    let mut w = PcapWriter::new(Vec::new(), h);
    for p in packets {
        w.write_packet(p);
    }
    w.into_writer()
}

fn open(bytes: Vec<u8>) -> Result<PcapReader, PcapError> {
    PcapReader::new(ByteSource::new(bytes))
}

fn read_all(bytes: Vec<u8>) -> (PcapHeader, Vec<Packet>) {
    let mut r = open(bytes).unwrap();
    let mut out = Vec::new();
    while let Some(p) = r.next() {
        out.push(p.unwrap());
    }
    (r.header, out)
}

/// A little-endian, microsecond stream: Ethernet, one four-byte packet.
fn example_bytes() -> Vec<u8> {
    vec![
        0xd4, 0xc3, 0xb2, 0xa1, // magic
        0x02, 0x00, 0x04, 0x00, // version 2.4
        0x00, 0x00, 0x00, 0x00, // time zone
        0x00, 0x00, 0x00, 0x00, // accuracy
        0xff, 0xff, 0x00, 0x00, // snapshot length
        0x01, 0x00, 0x00, 0x00, // link type
        0xe8, 0x03, 0x00, 0x00, // 1000 s
        0xf4, 0x01, 0x00, 0x00, // 500 us
        0x04, 0x00, 0x00, 0x00, // captured
        0x04, 0x00, 0x00, 0x00, // original
        0xaa, 0xbb, 0xcc, 0xdd,
    ]
}

#[test]
fn example_scenario_reads_and_reencodes() {
    let bytes = example_bytes();
    assert_eq!(bytes.len(), 44);
    let (h, packets) = read_all(bytes.clone());
    assert_eq!(h, header(Endianness::Little, TsResolution::Microsecond));
    assert_eq!(packets.len(), 1);
    assert_eq!(packets[0].timestamp_seconds, 1000);
    assert_eq!(packets[0].timestamp_fraction, 500);
    assert_eq!(packets[0].captured_length, 4);
    assert_eq!(packets[0].original_length, 4);
    assert_eq!(packets[0].payload, vec![0xaa, 0xbb, 0xcc, 0xdd]);
    assert_eq!(encode(h, &packets), bytes);
}

#[test]
fn round_trip_several_records() {
    for order in [Endianness::Big, Endianness::Little] {
        for unit in [TsResolution::Microsecond, TsResolution::Nanosecond] {
            let mut h = header(order, unit);
            h.time_zone_offset = -3600;
            h.timestamp_accuracy = 9;
            h.snapshot_length = 3;
            let packets = vec![
                packet(1, vec![1, 2, 3, 4, 5]),
                packet(2, vec![]),
                packet(0xdead_beef, (0..=255).collect()),
            ];
            let (h2, back) = read_all(encode(h, &packets));
            assert_eq!(h2, h);
            assert_eq!(back, packets);
        }
    }
}

fn magic_case(magic: [u8; 4], order: Endianness, unit: TsResolution) {
    let mut bytes = encode(header(order, unit), &[]);
    assert_eq!(&bytes[0..4], &magic);
    bytes.extend(encode(header(order, unit), &[packet(5, vec![9])])[24..].iter());
    let (h, packets) = read_all(bytes);
    assert_eq!(h.byte_order, order);
    assert_eq!(h.timestamp_unit, unit);
    assert_eq!(h.version_major, 2);
    assert_eq!(h.snapshot_length, 65535);
    assert_eq!(packets, vec![packet(5, vec![9])]);
}

#[test]
fn magic_big_microsecond() {
    magic_case([0xa1, 0xb2, 0xc3, 0xd4], Endianness::Big, TsResolution::Microsecond);
}

#[test]
fn magic_little_microsecond() {
    magic_case([0xd4, 0xc3, 0xb2, 0xa1], Endianness::Little, TsResolution::Microsecond);
}

#[test]
fn magic_big_nanosecond() {
    magic_case([0xa1, 0xb2, 0x3c, 0x4d], Endianness::Big, TsResolution::Nanosecond);
}

#[test]
fn magic_little_nanosecond() {
    magic_case([0x4d, 0x3c, 0xb2, 0xa1], Endianness::Little, TsResolution::Nanosecond);
}

#[test]
fn unknown_magic_is_refused() {
    let mut bytes = example_bytes();
    bytes[0] = 0xa2;
    assert_eq!(open(bytes).err(), Some(PcapError::UnknownMagicNumber));
    let mut swapped = example_bytes();
    swapped[0..4].copy_from_slice(&[0xa1, 0xb2, 0xd4, 0xc3]);
    assert_eq!(open(swapped).err(), Some(PcapError::UnknownMagicNumber));
}

#[test]
fn unknown_magic_wins_over_short_header() {
    assert_eq!(open(vec![0, 0, 0, 0, 1]).err(), Some(PcapError::UnknownMagicNumber));
}

#[test]
fn short_header_is_truncated() {
    let bytes = example_bytes();
    assert_eq!(open(bytes[..23].to_vec()).err(), Some(PcapError::Truncated));
    assert_eq!(open(bytes[..3].to_vec()).err(), Some(PcapError::Truncated));
    assert_eq!(open(Vec::new()).err(), Some(PcapError::Truncated));
}

#[test]
fn header_only_ends_cleanly() {
    let bytes = encode(header(Endianness::Big, TsResolution::Nanosecond), &[]);
    assert_eq!(bytes.len(), 24);
    let mut r = open(bytes).unwrap();
    assert!(r.next().is_none());
    assert!(r.next().is_none());
}

#[test]
fn stray_bytes_after_record_are_truncated() {
    let mut bytes = example_bytes();
    bytes.extend([1u8, 2, 3]);
    let mut r = open(bytes).unwrap();
    let first = r.next().unwrap().unwrap();
    assert_eq!(first.payload, vec![0xaa, 0xbb, 0xcc, 0xdd]);
    assert_eq!(r.next().unwrap().err(), Some(PcapError::Truncated));
    assert!(r.next().is_none());
}

#[test]
fn short_payload_is_truncated() {
    let bytes = example_bytes();
    let mut r = open(bytes[..43].to_vec()).unwrap();
    assert_eq!(r.next().unwrap().err(), Some(PcapError::Truncated));
}

#[test]
fn zero_length_payload_decodes() {
    let h = header(Endianness::Little, TsResolution::Microsecond);
    let empty = Packet {
        timestamp_seconds: 3,
        timestamp_fraction: 4,
        captured_length: 0,
        original_length: 60,
        payload: Vec::new(),
    };
    let bytes = encode(h, &[empty.clone(), packet(8, vec![7])]);
    assert_eq!(bytes.len(), 24 + 16 + 16 + 1);
    let mut r = open(bytes).unwrap();
    assert_eq!(r.next().unwrap().unwrap(), empty);
    assert_eq!(r.next().unwrap().unwrap(), packet(8, vec![7]));
    assert!(r.next().is_none());
}

#[test]
fn byte_orders_differ_on_the_wire_only() {
    let packets = vec![packet(0x0102_0304, vec![1, 2]), packet(77, vec![3])];
    let big = header(Endianness::Big, TsResolution::Microsecond);
    let little = header(Endianness::Little, TsResolution::Microsecond);
    let big_bytes = encode(big, &packets);
    let little_bytes = encode(little, &packets);
    assert_ne!(big_bytes, little_bytes);
    assert_eq!(&big_bytes[24..28], &[0x01, 0x02, 0x03, 0x04]);
    assert_eq!(&little_bytes[24..28], &[0x04, 0x03, 0x02, 0x01]);
    let (hb, pb) = read_all(big_bytes);
    let (hl, pl) = read_all(little_bytes);
    assert_eq!(pb, pl);
    assert_eq!(pb, packets);
    assert_eq!(hb.byte_order, Endianness::Big);
    assert_eq!(hl.byte_order, Endianness::Little);
    assert_eq!(PcapHeader { byte_order: Endianness::Big, ..hl }, hb);
}

#[test]
fn big_endian_header_fields_on_the_wire() {
    let mut h = header(Endianness::Big, TsResolution::Nanosecond);
    h.time_zone_offset = -2;
    let bytes = encode(h, &[]);
    assert_eq!(
        bytes,
        vec![
            0xa1, 0xb2, 0x3c, 0x4d, 0x00, 0x02, 0x00, 0x04, 0xff, 0xff, 0xff, 0xfe, 0, 0, 0, 0,
            0x00, 0x00, 0xff, 0xff, 0, 0, 0, 1,
        ]
    );
}

#[test]
fn writer_keeps_what_the_sink_held() {
    let w = PcapWriter::new(vec![9, 9], header(Endianness::Little, TsResolution::Microsecond));
    assert_eq!(w.get_ref().len(), 26);
    assert_eq!(&w.get_ref()[..3], &[9, 9, 0xd4]);
}

#[test]
fn payload_is_written_as_it_is() {
    let mut p = packet(1, vec![1, 2, 3]);
    p.captured_length = 1;
    let bytes = encode(header(Endianness::Little, TsResolution::Microsecond), &[p]);
    assert_eq!(bytes.len(), 24 + 16 + 3);
    assert_eq!(&bytes[32..36], &[1, 0, 0, 0]);
}

#[test]
fn peek_does_not_consume() {
    let mut r = PeekReader::new(ByteSource::new(vec![5, 6, 7]));
    assert_eq!(r.peek(), Some(5));
    assert_eq!(r.peek(), Some(5));
    assert!(!r.is_empty());
    assert_eq!(r.read_exact(2), Ok(vec![5, 6]));
    assert_eq!(r.read_byte(), Some(7));
    assert!(r.is_empty());
    assert_eq!(r.peek(), None);
    assert_eq!(r.read_exact(0), Ok(vec![]));
}

#[test]
fn read_exact_reports_truncation() {
    let mut r = PeekReader::new(ByteSource::new(vec![5, 6, 7]));
    assert_eq!(r.peek(), Some(5));
    assert_eq!(r.read_exact(4), Err(PcapError::Truncated));
    assert!(r.is_empty());
}

#[test]
fn reader_gives_back_its_source() {
    let mut bytes = example_bytes();
    bytes.extend([1u8, 2]);
    let mut r = open(bytes).unwrap();
    assert_eq!(r.get_ref().remaining(), 22);
    assert_eq!(r.get_mut().read_byte(), Some(0xe8));
    assert_eq!(r.get_ref().remaining(), 21);
    let source = r.into_reader();
    assert_eq!(source.remaining(), 21);
}

#[test]
fn source_keeps_bytes_after_pulled_records() {
    let mut bytes = example_bytes();
    bytes.extend([0xa0u8, 0xa1, 0xa2, 0xa3, 0xa4, 0xa5, 0xa6, 0xa7, 0xa8]);
    let mut r = open(bytes).unwrap();
    assert_eq!(r.header(), header(Endianness::Little, TsResolution::Microsecond));
    assert!(r.next().unwrap().is_ok());
    let mut source = r.into_reader();
    assert_eq!(source.remaining(), 9);
    assert_eq!(source.read_byte(), Some(0xa0));
}

#[test]
fn writer_reports_its_header() {
    let h = header(Endianness::Big, TsResolution::Nanosecond);
    let w = PcapWriter::new(Vec::new(), h);
    assert_eq!(w.header(), h);
}
