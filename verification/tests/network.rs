use wotlk_realm::crypt::{Decryptor, Encryptor};
use wotlk_realm::header::{decode_server_header, server_header_len, HeaderError};
use wotlk_realm::opcodes::OpcodeNames;
use wotlk_realm::network::{PacketReader, PacketSerializer, ReadError, SerializeError};
use wotlk_realm::packet::{Packet, PacketOpcode, PacketType};
use wotlk_realm::rc4::Rc4;

const SECRET: [u8; 40] = [
    1, 2, 3, 4, 5, 6, 7, 8, 9, 10, 11, 12, 13, 14, 15, 16, 17, 18, 19, 20, 21, 22, 23, 24, 25, 26, 27, 28, 29, 30,
    31, 32, 33, 34, 35, 36, 37, 38, 39, 40,
];

#[test]
fn decodes_short_server_header() {
    let header = [0x00, 0x08, 0xA9, 0x00];
    assert_eq!(decode_server_header(&header).unwrap(), (6, 0x00A9));
}

#[test]
fn decodes_long_server_header_without_counting_marker_bit() {
    // A long header: the 0x80 bit marks the three-byte size and is not part
    // of it; the opcode is 0x01F6 (SMSG_COMPRESSED_UPDATE_OBJECT).
    let header = [0x80, 0xA2, 0xC2, 0xF6, 0x01];
    assert_eq!(server_header_len(header[0]), 5);
    assert_eq!(decode_server_header(&header).unwrap(), (0x00A2C2 - 2, 0x01F6));
}

#[test]
fn header_errors() {
    assert_eq!(decode_server_header(&[0x00, 0x08, 0xA9]), Err(HeaderError::Incomplete));
    assert_eq!(decode_server_header(&[0x80, 0x00, 0x08, 0xA9]), Err(HeaderError::IncompleteLong));
    assert_eq!(decode_server_header(&[0x00, 0x01, 0xA9, 0x00]), Err(HeaderError::InvalidSize(1)));
    assert_eq!(decode_server_header(&[0x00, 0x02, 0xA9, 0x00]).unwrap(), (0, 0x00A9));
    assert_eq!(server_header_len(0x7F), 4);
}

#[test]
fn rc4_known_vector() {
    let mut cipher = Rc4::new(b"Key");
    let mut data = *b"Plaintext";
    cipher.apply(&mut data, 0, 9);
    assert_eq!(data, [0xBB, 0xF3, 0x16, 0xE8, 0xD9, 0x40, 0xAF, 0x0A, 0xD3]);
}

#[test]
fn header_ciphers_known_keystreams() {
    let mut d = Decryptor::new(&SECRET);
    let mut data = [0u8; 8];
    d.decrypt(&mut data, 0, 8);
    assert_eq!(data, [0xB2, 0x44, 0x5B, 0xED, 0xD0, 0x44, 0x85, 0x04]);
    let mut e = Encryptor::new(&SECRET);
    let mut data = [0u8; 8];
    e.encrypt(&mut data, 0, 8);
    assert_eq!(data, [0x2D, 0x6D, 0x69, 0xDE, 0x41, 0xCA, 0x00, 0xC8]);
}

#[test]
fn reads_clear_packet_and_waits_for_bytes() {
    let mut reader = PacketReader::new();
    let mut short = vec![0x00, 0x05];
    assert_eq!(reader.read(&mut short, None, &OpcodeNames::new()).unwrap_err(), ReadError::IncompleteHeader);
    let mut partial = vec![0x00, 0x05, 0xA9, 0x00, 1];
    assert_eq!(reader.read(&mut partial, None, &OpcodeNames::new()).unwrap_err(), ReadError::IncompleteBody);
    let mut full = vec![0x00, 0x05, 0xA9, 0x00, 1, 2, 3, 99];
    let packet = reader.read(&mut full, None, &OpcodeNames::new()).unwrap();
    assert_eq!(packet.packet_type, PacketType::Incoming);
    assert_eq!(packet.opcode, PacketOpcode::U16(0x00A9));
    assert_eq!(packet.packet_size, 7);
    assert_eq!(packet.body, vec![1, 2, 3]);
    assert_eq!(full, vec![0x00, 0x05, 0xA9, 0x00, 1, 2, 3, 99]);
}

#[test]
fn read_reports_invalid_size() {
    let mut reader = PacketReader::new();
    let mut buf = vec![0x00, 0x01, 0xA9, 0x00];
    assert_eq!(reader.read(&mut buf, None, &OpcodeNames::new()).unwrap_err(), ReadError::InvalidSize(1));
    let mut long = vec![0x80, 0x00, 0x00, 0xF6];
    assert_eq!(reader.read(&mut long, None, &OpcodeNames::new()).unwrap_err(), ReadError::IncompleteLongHeader);
}

/// A server-side encryption of `header` with the cipher the client decrypts
/// with, `skip` keystream bytes on.
fn server_encrypt(headers: &[&[u8]]) -> Vec<Vec<u8>> {
    let mut cipher = Decryptor::new(&SECRET);
    headers
        .iter()
        .map(|h| {
            let mut v = h.to_vec();
            let n = v.len();
            cipher.decrypt(&mut v, 0, n);
            v
        })
        .collect()
}

#[test]
fn encrypted_packets_read_whole_and_in_pieces() {
    let headers: [&[u8]; 2] = [&[0x80, 0x00, 0x04, 0xF6, 0x01], &[0x00, 0x03, 0xA9, 0x00]];
    let enc = server_encrypt(&headers);

    // Whole: the first packet, in clear, brings the secret.
    let mut reader = PacketReader::new();
    let mut first = vec![0x00, 0x02, 0xEE, 0x01];
    let p = reader.read(&mut first, Some(&SECRET), &OpcodeNames::new()).unwrap();
    assert_eq!(p.opcode, PacketOpcode::U16(0x01EE));
    let mut buf = enc[0].clone();
    buf.extend_from_slice(&[7, 8]);
    let p = reader.read(&mut buf, Some(&SECRET), &OpcodeNames::new()).unwrap();
    assert_eq!(p.opcode, PacketOpcode::U16(0x01F6));
    assert_eq!(p.packet_size, 7);
    assert_eq!(p.body, vec![7, 8]);
    let mut buf = enc[1].clone();
    buf.push(9);
    let p = reader.read(&mut buf, Some(&SECRET), &OpcodeNames::new()).unwrap();
    assert_eq!(p.opcode, PacketOpcode::U16(0x00A9));
    assert_eq!(p.body, vec![9]);

    // In pieces: four bytes of the long header, then five, then the body.
    let mut reader = PacketReader::new();
    let mut first = vec![0x00, 0x02, 0xEE, 0x01];
    reader.read(&mut first, Some(&SECRET), &OpcodeNames::new()).unwrap();
    let mut buf = enc[0][..4].to_vec();
    assert_eq!(reader.read(&mut buf, Some(&SECRET), &OpcodeNames::new()).unwrap_err(), ReadError::IncompleteLongHeader);
    buf.push(enc[0][4]);
    assert_eq!(reader.read(&mut buf, Some(&SECRET), &OpcodeNames::new()).unwrap_err(), ReadError::IncompleteBody);
    buf.push(7);
    assert_eq!(reader.read(&mut buf, Some(&SECRET), &OpcodeNames::new()).unwrap_err(), ReadError::IncompleteBody);
    buf.push(8);
    let p = reader.read(&mut buf, Some(&SECRET), &OpcodeNames::new()).unwrap();
    assert_eq!(p.opcode, PacketOpcode::U16(0x01F6));
    assert_eq!(p.body, vec![7, 8]);
    let mut buf = enc[1].clone();
    buf.push(9);
    let p = reader.read(&mut buf, Some(&SECRET), &OpcodeNames::new()).unwrap();
    assert_eq!(p.opcode, PacketOpcode::U16(0x00A9));
    assert_eq!(p.body, vec![9]);
}

#[test]
fn serializes_client_packets() {
    let mut writer = PacketSerializer::new();
    let packet = Packet {
        packet_type: PacketType::Outgoing,
        opcode: PacketOpcode::U32(0x01ED),
        packet_name: String::new(),
        packet_size: 0,
        body: vec![1, 2, 3],
    };
    let bytes = writer.serialize(&packet, None).unwrap();
    assert_eq!(bytes, vec![0x00, 0x07, 0xED, 0x01, 0x00, 0x00, 1, 2, 3]);

    let wrong = Packet { packet_type: PacketType::Outgoing, opcode: PacketOpcode::U16(1), packet_name: String::new(), packet_size: 0, body: vec![] };
    assert_eq!(writer.serialize(&wrong, None).unwrap_err(), SerializeError::WrongOpcodeType);

    // The packet written while the secret is known goes out in clear; the
    // next one has its header encrypted.
    let bytes = writer.serialize(&packet, Some(&SECRET)).unwrap();
    assert_eq!(bytes, vec![0x00, 0x07, 0xED, 0x01, 0x00, 0x00, 1, 2, 3]);
    let bytes = writer.serialize(&packet, Some(&SECRET)).unwrap();
    let mut expected = vec![0x00, 0x07, 0xED, 0x01, 0x00, 0x00];
    Encryptor::new(&SECRET).encrypt(&mut expected, 0, 6);
    expected.extend_from_slice(&[1, 2, 3]);
    assert_eq!(bytes, expected);
    assert_ne!(bytes[..6], [0x00, 0x07, 0xED, 0x01, 0x00, 0x00]);
}

#[test]
fn client_size_wraps_at_sixteen_bits() {
    let mut writer = PacketSerializer::new();
    let packet = Packet {
        packet_type: PacketType::Outgoing,
        opcode: PacketOpcode::U32(0x11223344),
        packet_name: String::new(),
        packet_size: 0,
        body: vec![0; 0xFFFD],
    };
    let bytes = writer.serialize(&packet, None).unwrap();
    assert_eq!(bytes[..6], [0x00, 0x01, 0x44, 0x33, 0x22, 0x11]);
    assert_eq!(bytes.len(), 6 + 0xFFFD);
}

#[test]
fn same_keystream_twice_restores_bytes() {
    let original = *b"header";
    let mut data = original;
    Rc4::new(b"session").apply(&mut data, 0, 6);
    assert_ne!(data, original);
    Rc4::new(b"session").apply(&mut data, 0, 6);
    assert_eq!(data, original);
}

#[test]
fn default_reader_and_writer_start_in_clear() {
    let mut reader = PacketReader::default();
    let mut buf = vec![0x00, 0x02, 0x34, 0x12];
    let p = reader.read(&mut buf, None, &OpcodeNames::new()).unwrap();
    assert_eq!(p.opcode, PacketOpcode::U16(0x1234));
    assert!(p.body.is_empty());
    let mut writer = PacketSerializer::default();
    let packet = Packet { packet_type: PacketType::Outgoing, opcode: PacketOpcode::U32(7), packet_name: String::new(), packet_size: 0, body: vec![] };
    assert_eq!(writer.serialize(&packet, None).unwrap(), vec![0x00, 0x04, 7, 0, 0, 0]);
}

#[test]
fn read_packet_is_named_from_the_table() {
    let mut names = OpcodeNames::new();
    names.insert(0x00A9, "SMSG_UPDATE_OBJECT".to_string());
    let mut reader = PacketReader::default();
    let mut buffer = vec![0x00, 0x08, 0xA9, 0x00, 1, 2, 3, 4, 5, 6];
    let p = reader.read(&mut buffer, None, &names).unwrap();
    assert_eq!(p.packet_type, PacketType::Incoming);
    assert_eq!(p.opcode, PacketOpcode::U16(0x00A9));
    assert_eq!(p.packet_name, "SMSG_UPDATE_OBJECT");
    assert_eq!(p.packet_size, 10);
    assert_eq!(p.body, vec![1, 2, 3, 4, 5, 6]);
    assert_eq!(buffer, vec![0x00, 0x08, 0xA9, 0x00, 1, 2, 3, 4, 5, 6]);

    // An opcode that the table does not name gets the empty name.
    let mut buffer = vec![0x00, 0x02, 0xAA, 0x00];
    let p = reader.read(&mut buffer, None, &names).unwrap();
    assert_eq!(p.packet_name, "");
}

#[test]
fn table_gives_back_the_latest_name() {
    let mut names = OpcodeNames::new();
    assert_eq!(names.get_opcode_name(1), None);
    names.insert(1, "A".to_string());
    names.insert(2, "B".to_string());
    names.insert(1, "C".to_string());
    assert_eq!(names.get_opcode_name(1), Some("C".to_string()));
    assert_eq!(names.get_opcode_name(2), Some("B".to_string()));
    assert_eq!(names.get_opcode_name(3), None);
}
