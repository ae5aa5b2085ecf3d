use adif::codec::{append_crc, compress, crc32, decompress, verify_and_strip_crc, CodecError};
use adif::fragment::FragmentAssembler;
use adif::framing::{encode_frame, frame_body_length, read_frame, FrameRead, MAX_FRAME_LEN};
use adif::packet::{build_ack, build_keep_alive, build_session_response, build_session_response_with_pass, parse_protocol_packet, ProtocolPacket};
use adif::session::{EqSession, PeerAddr, SessionState};
use adif::transport::send_app_packet;

fn local_addr() -> PeerAddr {
    PeerAddr { ip: "127.0.0.1".to_string(), port: 5998 }
}

#[test]
fn crc_round_trip() {
    let mut data = vec![0x00, 0x09, 0x00, 0x01, 0x48, 0x65, 0x6c, 0x6c, 0x6f];
    let key = 0x12345678u32;
    append_crc(&mut data, key, 2);
    assert_eq!(data.len(), 11);
    assert!(verify_and_strip_crc(&mut data, key, 2));
    assert_eq!(data.len(), 9);
}

#[test]
fn crc_detects_corruption() {
    let mut data = vec![0x00, 0x09, 0x00, 0x01, 0x48];
    let key = 0xAABBCCDD;
    append_crc(&mut data, key, 2);
    data[3] = 0xFF;
    assert!(!verify_and_strip_crc(&mut data, key, 2));
}

#[test]
fn compress_decompress_round_trip() {
    let plain = b"Hello, Norrath! This is a test of the compression system.";
    let compressed = compress(plain);
    let decompressed = decompress(&compressed).unwrap();
    assert_eq!(&decompressed, plain);
}

#[test]
fn decompress_uncompressed_flag() {
    let mut data = vec![0x00];
    data.extend_from_slice(b"raw data");
    let result = decompress(&data).unwrap();
    assert_eq!(&result, b"raw data");
}

#[test]
fn crc_is_standard_crc32_xor_key() {
    assert_eq!(crc32(b"123456789", 0), 0xCBF4_3926);
    assert_eq!(crc32(b"123456789", 0xFFFF_FFFF), 0xCBF4_3926 ^ 0xFFFF_FFFF);
    assert_eq!(crc32(b"", 0x1234), 0x1234);
}

#[test]
fn crc_trailer_is_low_bytes_big_endian() {
    let mut data = b"123456789".to_vec();
    append_crc(&mut data, 0, 2);
    assert_eq!(&data[9..], &[0x39, 0x26]);
    let mut four = b"123456789".to_vec();
    append_crc(&mut four, 0, 4);
    assert_eq!(&four[9..], &[0xCB, 0xF4, 0x39, 0x26]);
    let mut none = b"abc".to_vec();
    append_crc(&mut none, 7, 0);
    assert_eq!(none, b"abc".to_vec());
}

#[test]
fn crc_check_skips_short_datagrams() {
    let mut short = vec![0x00, 0x09, 0x01];
    assert!(verify_and_strip_crc(&mut short, 1, 2));
    assert_eq!(short, vec![0x00, 0x09, 0x01]);
}

#[test]
fn compress_marks_compressed_data() {
    let plain = vec![b'a'; 200];
    let compressed = compress(&plain);
    assert_eq!(compressed[0], 0xa5);
    assert!(compressed.len() < plain.len());
    assert_eq!(decompress(&compressed).unwrap(), plain);
}

#[test]
fn compress_keeps_incompressible_data_raw() {
    let plain = vec![7u8];
    let framed = compress(&plain);
    assert_eq!(framed, vec![0x00, 7]);
}

#[test]
fn decompress_empty_and_bad_stream() {
    assert_eq!(decompress(&[]).unwrap(), Vec::<u8>::new());
    assert!(matches!(decompress(&[0xa5, 1, 2, 3]), Err(CodecError::Inflate)));
}

#[test]
fn single_fragment_completes() {
    let mut assembler = FragmentAssembler::new();
    let mut data = vec![];
    data.extend_from_slice(&5u32.to_be_bytes());
    data.extend_from_slice(b"Hello");

    let result = assembler.add_fragment(0, &data, true);
    assert_eq!(result, Some(b"Hello".to_vec()));
    assert_eq!(assembler.pending_count(), 0);
}

#[test]
fn multi_fragment_assembly() {
    let mut assembler = FragmentAssembler::new();
    let mut first = vec![];
    first.extend_from_slice(&10u32.to_be_bytes());
    first.extend_from_slice(b"Hello");
    assert!(assembler.add_fragment(0, &first, true).is_none());
    assert_eq!(assembler.pending_count(), 1);

    let result = assembler.add_fragment(1, b"World", false);
    assert_eq!(result, Some(b"HelloWorld".to_vec()));
}

#[test]
fn continuation_without_start_is_dropped() {
    let mut assembler = FragmentAssembler::new();
    assert!(assembler.add_fragment(3, b"orphan", false).is_none());
    assert_eq!(assembler.pending_count(), 0);
}

#[test]
fn parse_session_request() {
    let mut pkt = vec![0x00, 0x01];
    pkt.extend_from_slice(&2u32.to_be_bytes());
    pkt.extend_from_slice(&0xDEADBEEFu32.to_be_bytes());
    pkt.extend_from_slice(&512u32.to_be_bytes());

    match parse_protocol_packet(&pkt).unwrap() {
        ProtocolPacket::SessionRequest { protocol_version, connect_code, max_packet_size } => {
            assert_eq!(protocol_version, 2);
            assert_eq!(connect_code, 0xDEADBEEF);
            assert_eq!(max_packet_size, 512);
        }
        _ => panic!("Expected SessionRequest"),
    }
}

#[test]
fn build_and_verify_session_response() {
    let resp = build_session_response(0xDEADBEEF, 0x12345678, 2, 512);
    assert_eq!(resp.len(), 17);
    assert_eq!(resp[0], 0x00);
    assert_eq!(resp[1], 0x02);
    assert_eq!(resp[6], 0x12);
    assert_eq!(resp[10], 2);
    assert_eq!(resp[11], 1);
    assert_eq!(resp[12], 0);
}

#[test]
fn session_response_without_compression() {
    let resp = build_session_response_with_pass(0xDEADBEEF, 0, 0, 512, 0);
    assert_eq!(
        resp,
        vec![0x00, 0x02, 0xDE, 0xAD, 0xBE, 0xEF, 0, 0, 0, 0, 0, 0, 0, 0, 0, 0x02, 0x00]
    );
}

#[test]
fn parse_combined_packet() {
    let mut pkt = vec![0x00, 0x03];
    pkt.push(3);
    pkt.extend_from_slice(&[0xAA, 0xBB, 0xCC]);
    pkt.push(2);
    pkt.extend_from_slice(&[0xDD, 0xEE]);

    match parse_protocol_packet(&pkt).unwrap() {
        ProtocolPacket::Combined { sub_packets } => {
            assert_eq!(sub_packets.len(), 2);
            assert_eq!(sub_packets[0], vec![0xAA, 0xBB, 0xCC]);
            assert_eq!(sub_packets[1], vec![0xDD, 0xEE]);
        }
        _ => panic!("Expected Combined"),
    }
}

#[test]
fn parse_ack() {
    let pkt = vec![0x00, 0x15, 0x00, 0x05];
    match parse_protocol_packet(&pkt).unwrap() {
        ProtocolPacket::Ack { sequence } => assert_eq!(sequence, 5),
        _ => panic!("Expected Ack"),
    }
}

#[test]
fn built_ack_and_keep_alive_parse_back() {
    match parse_protocol_packet(&build_ack(0x1234)).unwrap() {
        ProtocolPacket::Ack { sequence } => assert_eq!(sequence, 0x1234),
        _ => panic!("Expected Ack"),
    }
    assert!(matches!(parse_protocol_packet(&build_keep_alive()).unwrap(), ProtocolPacket::KeepAlive));
}

#[test]
fn parse_rejects_short_packets() {
    assert!(parse_protocol_packet(&[0x00]).is_err());
    assert!(parse_protocol_packet(&[]).is_err());
}

#[test]
fn session_creation() {
    let session = EqSession::new(local_addr(), 0xDEADBEEF, 512);
    assert_eq!(session.state, SessionState::Connected);
    assert_eq!(session.crc_bytes, 2);
    assert_eq!(session.max_packet_size, 512);
    assert_eq!(session.sequence_in, 0);
    assert_eq!(session.sequence_out, 0);
}

#[test]
fn sequence_increments() {
    let mut session = EqSession::new(local_addr(), 0x1234, 512);
    assert_eq!(session.next_sequence_out(), 0);
    assert_eq!(session.next_sequence_out(), 1);
    assert_eq!(session.next_sequence_out(), 2);
}

#[test]
fn incoming_sequence_tracking() {
    let mut session = EqSession::new(local_addr(), 0x1234, 512);
    assert!(session.process_incoming_sequence(0));
    assert!(session.process_incoming_sequence(1));
    assert!(!session.process_incoming_sequence(5));
}

#[test]
fn outgoing_sequence_wraps() {
    let mut session = EqSession::new(local_addr(), 0x1234, 512);
    session.sequence_out = u16::MAX;
    assert_eq!(session.next_sequence_out(), u16::MAX);
    assert_eq!(session.next_sequence_out(), 0);
}

#[test]
fn frame_round_trip() {
    let body = b"zone message".to_vec();
    let mut stream = encode_frame(&body);
    assert_eq!(&stream[..4], &[0, 0, 0, 12]);
    stream.extend_from_slice(b"next");
    match read_frame(&stream) {
        FrameRead::Frame { body: got, consumed } => {
            assert_eq!(got, body);
            assert_eq!(consumed, 16);
        }
        other => panic!("Expected a frame, got {:?}", other),
    }
}

#[test]
fn frame_waits_for_whole_body() {
    let stream = encode_frame(b"abcdef");
    assert_eq!(read_frame(&stream[..3]), FrameRead::Incomplete);
    assert_eq!(read_frame(&stream[..7]), FrameRead::Incomplete);
}

#[test]
fn frame_length_limits() {
    assert_eq!(frame_body_length(0), None);
    assert_eq!(frame_body_length(1), Some(1));
    assert_eq!(frame_body_length(MAX_FRAME_LEN), Some(1048576));
    assert_eq!(frame_body_length(MAX_FRAME_LEN + 1), None);
    assert_eq!(read_frame(&[0, 0, 0, 0]), FrameRead::InvalidLength(0));
    assert_eq!(read_frame(&[0, 0x10, 0, 1, 9]), FrameRead::InvalidLength(0x0010_0001));
}

#[test]
fn three_fragment_assembly() {
    let mut assembler = FragmentAssembler::new();
    let mut first = vec![];
    first.extend_from_slice(&12u32.to_be_bytes());
    first.extend_from_slice(b"abcd");
    assert!(assembler.add_fragment(40, &first, true).is_none());
    assert!(assembler.add_fragment(41, b"efgh", false).is_none());
    assert_eq!(assembler.add_fragment(42, b"ijklXX", false), Some(b"abcdefghijkl".to_vec()));
    assert_eq!(assembler.pending_count(), 0);
}

#[test]
fn app_packet_fills_a_small_datagram_exactly() {
    let mut session = EqSession::new(local_addr(), 1, 8);
    session.crc_bytes = 0;
    let out = send_app_packet(&mut session, false, 0x1234, &[0xAA, 0xBB]);
    assert_eq!(out, vec![vec![0x00, 0x09, 0x00, 0x00, 0x34, 0x12, 0xAA, 0xBB]]);
    assert_eq!(session.sequence_out, 1);
}

#[test]
fn app_packet_too_large_is_fragmented() {
    let mut session = EqSession::new(local_addr(), 1, 16);
    session.crc_bytes = 0;
    let data: Vec<u8> = (0u8..20).collect();
    let out = send_app_packet(&mut session, false, 0x1234, &data);
    assert_eq!(out.len(), 3);
    assert_eq!(out[0], vec![0x00, 0x0d, 0, 0, 0, 0, 0, 22, 0x34, 0x12, 0, 1, 2, 3, 4, 5]);
    assert_eq!(out[1], vec![0x00, 0x0d, 0, 1, 6, 7, 8, 9, 10, 11, 12, 13, 14, 15, 16, 17]);
    assert_eq!(out[2], vec![0x00, 0x0d, 0, 2, 18, 19]);
    assert_eq!(session.sequence_out, 3);
}
