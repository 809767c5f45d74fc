use chess_net::c2s::{C2sConnectRequest, C2sMessage};
use chess_net::message::{Malformed, Move, Promotion};
use chess_net::s2c::{BoardState, S2cConnectAck, S2cMessage, S2cMoveAck};
use chess_net::varint::read_varint;
use chess_net::wire::{
    read_bool_field, read_len_field, read_text_field, read_u32_field, write_bool_field,
    write_len_field, write_text_field, write_u32_field,
};

fn number_field(value: u32) -> Vec<u8> {
    let mut buf = Vec::new();
    write_u32_field(&mut buf, 0x08, value);
    buf
}

#[test]
fn number_field_known_values() {
    assert_eq!(number_field(0), vec![0x08, 0x00]);
    assert_eq!(number_field(1), vec![0x08, 0x01]);
    assert_eq!(number_field(127), vec![0x08, 0x7f]);
    assert_eq!(number_field(128), vec![0x08, 0x80, 0x01]);
    assert_eq!(number_field(300), vec![0x08, 0xac, 0x02]);
    assert_eq!(number_field(16383), vec![0x08, 0xff, 0x7f]);
    assert_eq!(number_field(16384), vec![0x08, 0x80, 0x80, 0x01]);
    assert_eq!(number_field(u32::MAX), vec![0x08, 0xff, 0xff, 0xff, 0xff, 0x0f]);
}

#[test]
fn number_field_is_appended_to_what_is_there() {
    let mut buf = vec![9u8, 9];
    write_u32_field(&mut buf, 0x10, 300);
    assert_eq!(buf, vec![9, 9, 0x10, 0xac, 0x02]);
}

#[test]
fn number_field_agrees_with_the_outside_encoder() {
    for value in [0u32, 1, 63, 64, 127, 128, 255, 256, 1 << 14, (1 << 21) - 1, 1 << 28, u32::MAX] {
        let mut expected = vec![0x08u8];
        prost::encoding::encode_varint(u64::from(value), &mut expected);
        assert_eq!(number_field(value), expected);
    }
}

#[test]
fn length_of_a_long_run_is_written_in_base_128() {
    let payload = vec![7u8; 20000];
    let mut buf = Vec::new();
    write_len_field(&mut buf, 0x22, &payload);
    assert_eq!(&buf[..4], &[0x22, 0xa0, 0x9c, 0x01]);
    assert_eq!(&buf[4..], &payload[..]);
    assert_eq!(read_len_field(&buf, 0x22), Some((4, 20004)));
}

#[test]
fn varint_reads_back_what_the_outside_encoder_wrote() {
    for value in [0u64, 1, 127, 128, 300, 1 << 32, u64::MAX - 1, u64::MAX] {
        let mut buf = Vec::new();
        prost::encoding::encode_varint(value, &mut buf);
        let used = buf.len();
        buf.extend_from_slice(&[0xaa, 0xbb]);
        assert_eq!(read_varint(&buf), Some((value, used)));
    }
}

#[test]
fn varint_reader_known_values() {
    assert_eq!(read_varint(&[0x7f]), Some((127, 1)));
    assert_eq!(read_varint(&[0xac, 0x02]), Some((300, 2)));
    assert_eq!(
        read_varint(&[0xff, 0xff, 0xff, 0xff, 0xff, 0xff, 0xff, 0xff, 0xff, 0x01]),
        Some((u64::MAX, 10))
    );
    assert_eq!(
        read_varint(&[0x80, 0x80, 0x80, 0x80, 0x80, 0x80, 0x80, 0x80, 0x80, 0x01, 0x55]),
        Some((1 << 63, 10))
    );
}

#[test]
fn varint_reader_refuses_what_no_writer_writes() {
    assert_eq!(read_varint(&[]), None);
    assert_eq!(read_varint(&[0x80]), None);
    assert_eq!(read_varint(&[0xff, 0xff]), None);
    assert_eq!(read_varint(&[0x80, 0x00]), None);
    assert_eq!(read_varint(&[0x81, 0x80, 0x00]), None);
    assert_eq!(
        read_varint(&[0xff, 0xff, 0xff, 0xff, 0xff, 0xff, 0xff, 0xff, 0xff, 0x02]),
        None
    );
    assert_eq!(
        read_varint(&[0x80, 0x80, 0x80, 0x80, 0x80, 0x80, 0x80, 0x80, 0x80, 0x80, 0x01]),
        None
    );
}

#[test]
fn varint_reader_takes_a_single_zero_byte() {
    assert_eq!(read_varint(&[0x00]), Some((0, 1)));
    assert_eq!(read_varint(&[0x00, 0x00]), Some((0, 1)));
}

#[test]
fn fields_known_bytes() {
    let mut buf = Vec::new();
    write_bool_field(&mut buf, 0x08, true);
    write_bool_field(&mut buf, 0x10, false);
    write_u32_field(&mut buf, 0x18, 300);
    write_len_field(&mut buf, 0x22, &[1, 2, 3]);
    write_text_field(&mut buf, 0x2a, "e4");
    assert_eq!(
        buf,
        vec![
            0x08, 0x01, 0x10, 0x00, 0x18, 0xac, 0x02, 0x22, 0x03, 1, 2, 3, 0x2a, 0x02, b'e',
            b'4'
        ]
    );
}

#[test]
fn fields_read_back() {
    assert_eq!(read_bool_field(&[0x08, 0x01, 0x77], 0x08), Some((true, 2)));
    assert_eq!(read_bool_field(&[0x08, 0x00], 0x08), Some((false, 2)));
    assert_eq!(read_u32_field(&[0x18, 0xac, 0x02, 0x77], 0x18), Some((300, 3)));
    assert_eq!(read_len_field(&[0x22, 0x03, 1, 2, 3, 0x77], 0x22), Some((2, 5)));
    assert_eq!(read_len_field(&[0x22, 0x00], 0x22), Some((2, 2)));
    assert_eq!(
        read_text_field(&[0x2a, 0x02, b'e', b'4', 0x77], 0x2a),
        Some(("e4".to_string(), 4))
    );
}

#[test]
fn field_readers_refuse_what_no_writer_writes() {
    assert_eq!(read_bool_field(&[], 0x08), None);
    assert_eq!(read_bool_field(&[0x08], 0x08), None);
    assert_eq!(read_bool_field(&[0x08, 0x02], 0x08), None);
    assert_eq!(read_bool_field(&[0x10, 0x01], 0x08), None);
    assert_eq!(read_u32_field(&[0x18], 0x18), None);
    assert_eq!(read_u32_field(&[0x10, 0x01], 0x18), None);
    assert_eq!(read_u32_field(&[0x18, 0x80, 0x00], 0x18), None);
    assert_eq!(read_u32_field(&[0x18, 0x80, 0x80, 0x80, 0x80, 0x10], 0x18), None);
    assert_eq!(
        read_u32_field(&[0x18, 0xff, 0xff, 0xff, 0xff, 0x0f], 0x18),
        Some((u32::MAX, 6))
    );
    assert_eq!(read_len_field(&[0x22, 0x03, 1, 2], 0x22), None);
    assert_eq!(read_len_field(&[0x22], 0x22), None);
    assert_eq!(read_len_field(&[0x2a, 0x00], 0x22), None);
}

#[test]
fn text_field_refuses_bytes_that_are_not_utf8() {
    assert_eq!(read_text_field(&[0x0a, 0x02, 0xc3, 0x28], 0x0a), None);
    assert_eq!(read_text_field(&[0x0a, 0x01, 0xff], 0x0a), None);
    assert_eq!(read_text_field(&[0x0a, 0x02, 0xc3, 0xa9], 0x0a), Some(("é".to_string(), 4)));
}

#[test]
fn move_known_bytes() {
    let m = Move { from_square: 12, to_square: 28, promotion: None };
    assert_eq!(m.encode(), vec![0x08, 12, 0x10, 28]);
    let zero = Move { from_square: 0, to_square: 0, promotion: None };
    assert_eq!(zero.encode(), vec![0x08, 0, 0x10, 0]);
    let promoting = Move { from_square: 52, to_square: 60, promotion: Some(Promotion::Knight) };
    assert_eq!(promoting.encode(), vec![0x08, 52, 0x10, 60, 0x18, 3]);
}

#[test]
fn move_round_trip_over_the_whole_board() {
    for from_square in 0..64u32 {
        for to_square in 0..64u32 {
            let m = Move { from_square, to_square, promotion: None };
            assert_eq!(Move::decode(&m.encode()), Ok(m));
        }
    }
}

#[test]
fn move_round_trip_with_every_promotion() {
    for promotion in [Promotion::Queen, Promotion::Rook, Promotion::Bishop, Promotion::Knight] {
        let m = Move { from_square: 48, to_square: 56, promotion: Some(promotion) };
        assert_eq!(Move::decode(&m.encode()), Ok(m));
        assert_eq!(Promotion::from_code(promotion.code()), Some(promotion));
    }
    assert_eq!(Promotion::from_code(4), None);
}

#[test]
fn move_decode_refuses_truncated_bytes() {
    assert_eq!(Move::decode(&[]), Err(Malformed));
    assert_eq!(Move::decode(&[0x08]), Err(Malformed));
    assert_eq!(Move::decode(&[0x08, 12]), Err(Malformed));
    assert_eq!(Move::decode(&[0x08, 12, 0x10]), Err(Malformed));
    assert_eq!(Move::decode(&[0x08, 12, 0x10, 28, 0x18]), Err(Malformed));
}

#[test]
fn move_decode_refuses_a_missing_coordinate() {
    assert_eq!(Move::decode(&[0x10, 28]), Err(Malformed));
    assert_eq!(Move::decode(&[0x08, 12, 0x18, 0]), Err(Malformed));
}

#[test]
fn move_decode_refuses_unknown_keys_and_wrong_order() {
    assert_eq!(Move::decode(&[0x20, 1, 0x08, 12, 0x10, 28]), Err(Malformed));
    assert_eq!(Move::decode(&[0x08, 12, 0x10, 28, 0x20, 1]), Err(Malformed));
    assert_eq!(Move::decode(&[0x10, 28, 0x08, 12]), Err(Malformed));
    assert_eq!(Move::decode(&[0x08, 12, 0x08, 12, 0x10, 28]), Err(Malformed));
}

#[test]
fn move_decode_refuses_squares_past_the_board() {
    assert_eq!(Move::decode(&[0x08, 64, 0x10, 28]), Err(Malformed));
    assert_eq!(Move::decode(&[0x08, 12, 0x10, 64]), Err(Malformed));
    assert_eq!(Move::decode(&[0x08, 0x80, 0x01, 0x10, 28]), Err(Malformed));
    assert_eq!(Move::decode(&[0x08, 63, 0x10, 63]).map(|m| m.to_square), Ok(63));
}

#[test]
fn move_decode_refuses_trailing_bytes_and_unknown_promotions() {
    assert_eq!(Move::decode(&[0x08, 12, 0x10, 28, 0x00]), Err(Malformed));
    assert_eq!(Move::decode(&[0x08, 12, 0x10, 28, 0x18, 4]), Err(Malformed));
    assert_eq!(Move::decode(&[0x08, 12, 0x10, 28, 0x18, 1, 0x18, 1]), Err(Malformed));
}

#[test]
fn move_is_valid_on_the_board_only() {
    assert!(Move { from_square: 63, to_square: 0, promotion: None }.is_valid());
    assert!(!Move { from_square: 64, to_square: 0, promotion: None }.is_valid());
    assert!(!Move { from_square: 0, to_square: 64, promotion: None }.is_valid());
}

#[test]
fn move_bytes_are_read_by_the_outside_decoder() {
    let m = Move { from_square: 12, to_square: 28, promotion: None };
    let bytes = m.encode();
    let mut rest: &[u8] = &bytes;
    let (tag, _) = prost::encoding::decode_key(&mut rest).expect("a key");
    assert_eq!(tag, 1);
    assert_eq!(prost::encoding::decode_varint(&mut rest), Ok(12));
    let (tag, _) = prost::encoding::decode_key(&mut rest).expect("a key");
    assert_eq!(tag, 2);
    assert_eq!(prost::encoding::decode_varint(&mut rest), Ok(28));
    assert!(rest.is_empty());
}

#[test]
fn connect_request_known_bytes() {
    let request = C2sConnectRequest { game_id: 0, spectate: false };
    assert_eq!(request.encode(), vec![0x08, 0, 0x10, 0]);
    assert_eq!(C2sConnectRequest::decode(&[0x08, 0, 0x10, 0]), Ok(request));
    let other = C2sConnectRequest { game_id: 300, spectate: true };
    assert_eq!(other.encode(), vec![0x08, 0xac, 0x02, 0x10, 1]);
    assert_eq!(C2sConnectRequest::decode(&other.encode()), Ok(other));
}

#[test]
fn connect_request_decode_refuses_malformed_bytes() {
    assert_eq!(C2sConnectRequest::decode(&[]), Err(Malformed));
    assert_eq!(C2sConnectRequest::decode(&[0x08, 0]), Err(Malformed));
    assert_eq!(C2sConnectRequest::decode(&[0x10, 0]), Err(Malformed));
    assert_eq!(C2sConnectRequest::decode(&[0x08, 0, 0x10, 2]), Err(Malformed));
    assert_eq!(C2sConnectRequest::decode(&[0x08, 0, 0x10, 0, 0x00]), Err(Malformed));
}

#[test]
fn c2s_message_known_bytes() {
    assert_eq!(C2sMessage::Empty.encode(), Vec::<u8>::new());
    let mv = C2sMessage::Move(Move { from_square: 12, to_square: 28, promotion: None });
    assert_eq!(mv.encode(), vec![0x0a, 4, 0x08, 12, 0x10, 28]);
    let request = C2sMessage::ConnectRequest(C2sConnectRequest { game_id: 0, spectate: false });
    assert_eq!(request.encode(), vec![0x12, 4, 0x08, 0, 0x10, 0]);
}

#[test]
fn c2s_message_round_trip() {
    for message in [
        C2sMessage::Empty,
        C2sMessage::Move(Move { from_square: 0, to_square: 63, promotion: None }),
        C2sMessage::Move(Move { from_square: 8, to_square: 0, promotion: Some(Promotion::Queen) }),
        C2sMessage::ConnectRequest(C2sConnectRequest { game_id: u32::MAX, spectate: true }),
        C2sMessage::ConnectRequest(C2sConnectRequest { game_id: 0, spectate: false }),
    ] {
        assert_eq!(C2sMessage::decode(&message.encode()), Ok(message));
    }
}

#[test]
fn c2s_message_decode_refuses_malformed_bytes() {
    assert_eq!(C2sMessage::decode(&[0x1a, 0]), Err(Malformed));
    assert_eq!(C2sMessage::decode(&[0x0a]), Err(Malformed));
    assert_eq!(C2sMessage::decode(&[0x0a, 5, 0x08, 12, 0x10, 28]), Err(Malformed));
    assert_eq!(C2sMessage::decode(&[0x0a, 3, 0x08, 12, 0x10, 28]), Err(Malformed));
    assert_eq!(C2sMessage::decode(&[0x0a, 4, 0x08, 64, 0x10, 28]), Err(Malformed));
    assert_eq!(C2sMessage::decode(&[0x12, 0]), Err(Malformed));
    let twice = [0x0au8, 4, 0x08, 12, 0x10, 28, 0x0a, 4, 0x08, 12, 0x10, 28];
    assert_eq!(C2sMessage::decode(&twice), Err(Malformed));
}

#[test]
fn board_state_round_trip() {
    let start = BoardState {
        fen_string: "rnbqkbnr/pppppppp/8/8/8/8/PPPPPPPP/RNBQKBNR w KQkq - 0 1".to_string(),
    };
    let bytes = start.encode();
    assert_eq!(bytes[0], 0x0a);
    assert_eq!(bytes[1] as usize, start.fen_string.len());
    assert_eq!(&bytes[2..], start.fen_string.as_bytes());
    assert_eq!(BoardState::decode(&bytes), Ok(start));
    let empty = BoardState { fen_string: String::new() };
    assert_eq!(empty.encode(), vec![0x0a, 0]);
    assert_eq!(BoardState::decode(&[0x0a, 0]), Ok(empty));
}

#[test]
fn board_state_round_trip_with_a_long_text() {
    let long = BoardState { fen_string: "k".repeat(300) };
    let bytes = long.encode();
    assert_eq!(&bytes[..3], &[0x0a, 0xac, 0x02]);
    assert_eq!(BoardState::decode(&bytes), Ok(long));
}

#[test]
fn board_state_decode_refuses_malformed_bytes() {
    assert_eq!(BoardState::decode(&[]), Err(Malformed));
    assert_eq!(BoardState::decode(&[0x0a, 2, b'a']), Err(Malformed));
    assert_eq!(BoardState::decode(&[0x0a, 1, b'a', b'b']), Err(Malformed));
    assert_eq!(BoardState::decode(&[0x0a, 1, 0xff]), Err(Malformed));
    assert_eq!(BoardState::decode(&[0x12, 1, b'a']), Err(Malformed));
}

#[test]
fn connect_ack_known_bytes() {
    let bare = S2cConnectAck {
        success: true,
        client_is_white: None,
        game_id: None,
        starting_position: None,
    };
    assert_eq!(bare.encode(), vec![0x08, 1]);
    let full = S2cConnectAck {
        success: false,
        client_is_white: Some(true),
        game_id: Some(7),
        starting_position: Some(BoardState { fen_string: "8/8".to_string() }),
    };
    assert_eq!(
        full.encode(),
        vec![0x08, 0, 0x10, 1, 0x18, 7, 0x22, 5, 0x0a, 3, b'8', b'/', b'8']
    );
}

#[test]
fn connect_ack_round_trip_over_every_shape() {
    for success in [false, true] {
        for client_is_white in [None, Some(false), Some(true)] {
            for game_id in [None, Some(0u32), Some(300), Some(u32::MAX)] {
                for fen in [None, Some(""), Some("8/8/8/8/8/8/8/8 w - - 0 1")] {
                    let ack = S2cConnectAck {
                        success,
                        client_is_white,
                        game_id,
                        starting_position: fen
                            .map(|text| BoardState { fen_string: text.to_string() }),
                    };
                    assert_eq!(S2cConnectAck::decode(&ack.encode()), Ok(ack));
                }
            }
        }
    }
}

#[test]
fn connect_ack_decode_refuses_malformed_bytes() {
    assert_eq!(S2cConnectAck::decode(&[]), Err(Malformed));
    assert_eq!(S2cConnectAck::decode(&[0x10, 1]), Err(Malformed));
    assert_eq!(S2cConnectAck::decode(&[0x08, 1, 0x18, 7, 0x10, 1]), Err(Malformed));
    assert_eq!(S2cConnectAck::decode(&[0x08, 1, 0x10, 1, 0x10, 1]), Err(Malformed));
    assert_eq!(S2cConnectAck::decode(&[0x08, 1, 0x10]), Err(Malformed));
    assert_eq!(S2cConnectAck::decode(&[0x08, 1, 0x22, 3, 0x0a, 1]), Err(Malformed));
    assert_eq!(S2cConnectAck::decode(&[0x08, 1, 0x22, 2, 0x12, 0]), Err(Malformed));
    assert_eq!(S2cConnectAck::decode(&[0x08, 1, 0x28, 0]), Err(Malformed));
}

#[test]
fn move_ack_known_bytes_and_round_trip() {
    let plain = S2cMoveAck { legal: true, board_result: None };
    assert_eq!(plain.encode(), vec![0x08, 1]);
    assert_eq!(S2cMoveAck::decode(&[0x08, 1]), Ok(plain));
    let refused = S2cMoveAck { legal: false, board_result: Some("8/8".to_string()) };
    assert_eq!(refused.encode(), vec![0x08, 0, 0x12, 3, b'8', b'/', b'8']);
    assert_eq!(S2cMoveAck::decode(&refused.encode()), Ok(refused));
}

#[test]
fn move_ack_decode_refuses_malformed_bytes() {
    assert_eq!(S2cMoveAck::decode(&[]), Err(Malformed));
    assert_eq!(S2cMoveAck::decode(&[0x08]), Err(Malformed));
    assert_eq!(S2cMoveAck::decode(&[0x08, 3]), Err(Malformed));
    assert_eq!(S2cMoveAck::decode(&[0x08, 1, 0x12]), Err(Malformed));
    assert_eq!(S2cMoveAck::decode(&[0x08, 1, 0x12, 1, 0xff]), Err(Malformed));
    assert_eq!(S2cMoveAck::decode(&[0x08, 1, 0x12, 0, 0x12, 0]), Err(Malformed));
    assert_eq!(S2cMoveAck::decode(&[0x08, 1, 0x1a, 0]), Err(Malformed));
}

#[test]
fn s2c_message_known_bytes() {
    assert_eq!(S2cMessage::Empty.encode(), Vec::<u8>::new());
    let mv = S2cMessage::Move(Move { from_square: 12, to_square: 28, promotion: None });
    assert_eq!(mv.encode(), vec![0x0a, 4, 0x08, 12, 0x10, 28]);
    let verdict = S2cMessage::MoveAck(S2cMoveAck { legal: true, board_result: None });
    assert_eq!(verdict.encode(), vec![0x1a, 2, 0x08, 1]);
    let answer = S2cMessage::ConnectAck(S2cConnectAck {
        success: true,
        client_is_white: Some(false),
        game_id: None,
        starting_position: None,
    });
    assert_eq!(answer.encode(), vec![0x12, 4, 0x08, 1, 0x10, 0]);
}

#[test]
fn s2c_message_round_trip() {
    for message in [
        S2cMessage::Empty,
        S2cMessage::Move(Move { from_square: 63, to_square: 0, promotion: Some(Promotion::Rook) }),
        S2cMessage::MoveAck(S2cMoveAck { legal: false, board_result: None }),
        S2cMessage::MoveAck(S2cMoveAck { legal: true, board_result: Some("x".repeat(200)) }),
        S2cMessage::ConnectAck(S2cConnectAck {
            success: true,
            client_is_white: Some(true),
            game_id: Some(0),
            starting_position: Some(BoardState {
                fen_string: "rnbqkbnr/pppppppp/8/8/8/8/PPPPPPPP/RNBQKBNR w KQkq - 0 1"
                    .to_string(),
            }),
        }),
    ] {
        assert_eq!(S2cMessage::decode(&message.encode()), Ok(message));
    }
}

#[test]
fn s2c_message_decode_refuses_malformed_bytes() {
    assert_eq!(S2cMessage::decode(&[0x22, 0]), Err(Malformed));
    assert_eq!(S2cMessage::decode(&[0x1a]), Err(Malformed));
    assert_eq!(S2cMessage::decode(&[0x1a, 2, 0x08]), Err(Malformed));
    assert_eq!(S2cMessage::decode(&[0x1a, 2, 0x08, 1, 0x00]), Err(Malformed));
    assert_eq!(S2cMessage::decode(&[0x1a, 0]), Err(Malformed));
    assert_eq!(S2cMessage::decode(&[0x0a, 4, 0x08, 12, 0x10, 64]), Err(Malformed));
    let twice = [0x1au8, 2, 0x08, 1, 0x1a, 2, 0x08, 1];
    assert_eq!(S2cMessage::decode(&twice), Err(Malformed));
}

#[test]
fn empty_bytes_are_the_empty_message() {
    assert_eq!(C2sMessage::decode(&[]), Ok(C2sMessage::Empty));
    assert_eq!(S2cMessage::decode(&[]), Ok(S2cMessage::Empty));
}
