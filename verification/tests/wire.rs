use backend::client::{ClientError, TcpClient};
use backend::handshake::{confirmation_matches, handshake_answer, read_le64, scramble, write_le64};
use backend::packet::{decode_header, encode_header, parse_frame, Packet, PacketType};

#[test]
fn packet_new_sets_body_size() {
    let p = Packet::new(41, vec![1, 2, 3]);
    assert_eq!(p.packet_type, 41);
    assert_eq!(p.body_size, 3);
    assert_eq!(p.body, vec![1, 2, 3]);
}

#[test]
fn packet_type_codes() {
    assert_eq!(PacketType::GetMetrics.code(), 4);
    assert_eq!(PacketType::GetMetricsResult.code(), 41);
    assert_eq!(PacketType::from_code(4), Some(PacketType::GetMetrics));
    assert_eq!(PacketType::from_code(41), Some(PacketType::GetMetricsResult));
    assert_eq!(PacketType::from_code(5), None);
}

#[test]
fn header_is_little_endian() {
    assert_eq!(encode_header(4, 0x0102_0304), vec![4, 0, 0, 0, 4, 3, 2, 1]);
    assert_eq!(decode_header(&[41, 0, 0, 0, 0x10, 0, 0, 0]), (41, 16));
}

#[test]
fn encode_is_header_then_body() {
    let p = Packet::new(41, b"{}".to_vec());
    assert_eq!(p.encode(), vec![41, 0, 0, 0, 2, 0, 0, 0, b'{', b'}']);
    let empty = Packet::new(4, Vec::new());
    assert_eq!(empty.encode(), vec![4, 0, 0, 0, 0, 0, 0, 0]);
}

#[test]
fn parse_frame_reads_back_encoded_packet() {
    let p = Packet::new(41, vec![9, 8, 7, 6, 5]);
    let mut bytes = p.encode();
    bytes.extend_from_slice(&[1, 2, 3]);
    let (q, used) = parse_frame(&bytes).expect("a whole frame");
    assert_eq!(used, 13);
    assert_eq!(q.packet_type, 41);
    assert_eq!(q.body_size, 5);
    assert_eq!(q.body, vec![9, 8, 7, 6, 5]);
}

#[test]
fn parse_frame_waits_for_whole_frame() {
    assert!(parse_frame(&[41, 0, 0]).is_none());
    assert!(parse_frame(&[41, 0, 0, 0, 3, 0, 0, 0, 1, 2]).is_none());
    assert!(parse_frame(&[41, 0, 0, 0, 3, 0, 0, 0, 1, 2, 3]).is_some());
}

#[test]
fn scramble_known_values() {
    assert_eq!(scramble(0), 0xC0DE_FA1E_BC89_B8B7);
    assert_eq!(scramble(0x0123_4567_89AB_CDEF), 0xD0EC_AE68_2433_6449);
}

#[test]
fn le64_roundtrip() {
    let bytes = write_le64(0x1122_3344_5566_7788);
    assert_eq!(bytes, vec![0x88, 0x77, 0x66, 0x55, 0x44, 0x33, 0x22, 0x11]);
    assert_eq!(read_le64(&bytes), 0x1122_3344_5566_7788);
}

#[test]
fn handshake_answer_and_confirmation() {
    let challenge = write_le64(0);
    let answer = handshake_answer(&challenge);
    assert_eq!(answer, write_le64(0xC0DE_FA1E_BC89_B8B7));
    assert!(confirmation_matches(&challenge, &answer));
    assert!(!confirmation_matches(&challenge, &challenge));
}

#[test]
fn client_session_lifecycle() {
    let mut c = TcpClient::new();
    assert!(!c.is_connected());
    assert_eq!(c.check_ready(), Err(ClientError::HandshakeNotCompleted));
    assert_eq!(c.begin_connect(), Ok(()));
    let challenge = write_le64(7);
    assert_eq!(c.answer_challenge(&challenge), Err(ClientError::NotConnected));
    c.attach_stream();
    let answer = c.answer_challenge(&challenge).unwrap();
    assert_eq!(
        c.finish_handshake(&challenge, &challenge),
        Err(ClientError::HandshakeValidationFailed)
    );
    assert!(!c.is_connected());
    assert_eq!(c.finish_handshake(&challenge, &answer), Ok(()));
    assert!(c.is_connected());
    assert_eq!(c.begin_connect(), Err(ClientError::AlreadyConnected));
    let bytes = c.send_packet(&Packet::new(4, Vec::new())).unwrap();
    assert_eq!(bytes, vec![4, 0, 0, 0, 0, 0, 0, 0]);
    let got = c.receive_packet(&[41, 0, 0, 0, 1, 0, 0, 0], vec![7]).unwrap();
    assert_eq!((got.packet_type, got.body_size, got.body), (41, 1, vec![7]));
    c.disconnect();
    assert!(!c.is_connected());
    assert_eq!(c.check_ready(), Err(ClientError::HandshakeNotCompleted));
    assert!(c.send_packet(&Packet::new(4, Vec::new())).is_err());
}

#[test]
fn client_error_messages() {
    assert_eq!(ClientError::AlreadyConnected.message(), "Already connected");
    assert_eq!(ClientError::NotConnected.message(), "Not connected");
    assert_eq!(ClientError::HandshakeNotCompleted.message(), "Handshake not completed");
    assert_eq!(ClientError::HandshakeValidationFailed.message(), "Handshake validation failed");
}

#[test]
fn connected_session_receives_what_another_sent() {
    let challenge = write_le64(99);
    let mut a = TcpClient::new();
    let mut b = TcpClient::new();
    for c in [&mut a, &mut b] {
        c.attach_stream();
        let answer = c.answer_challenge(&challenge).unwrap();
        c.finish_handshake(&challenge, &answer).unwrap();
    }
    let bytes = a.send_packet(&Packet::new(41, vec![5, 6, 7])).unwrap();
    let got = b.receive_packet(&bytes[..8], bytes[8..].to_vec()).unwrap();
    assert_eq!((got.packet_type, got.body_size, got.body), (41, 3, vec![5, 6, 7]));
}
