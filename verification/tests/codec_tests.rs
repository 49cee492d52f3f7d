use endless_server::codec::{
    decode_input, encode_snapshot, parse_direction, parse_player_id, ClientMessage, DecodeError,
    Direction, InputEvent, PlayerRecord, Snapshot,
};

fn input(player_id: u16, direction: Direction) -> Result<ClientMessage, DecodeError> {
    Ok(ClientMessage::Input(InputEvent { player_id, direction }))
}

#[test]
fn empty_payload_is_the_disconnect_signal() {
    assert_eq!(decode_input(b""), Ok(ClientMessage::Disconnect));
}

#[test]
fn decodes_each_direction() {
    assert_eq!(decode_input(b"1|up"), input(1, Direction::Up));
    assert_eq!(decode_input(b"1|down"), input(1, Direction::Down));
    assert_eq!(decode_input(b"1|left"), input(1, Direction::Left));
    assert_eq!(decode_input(b"1|right"), input(1, Direction::Right));
}

#[test]
fn decodes_ids_over_the_whole_range() {
    assert_eq!(decode_input(b"0|up"), input(0, Direction::Up));
    assert_eq!(decode_input(b"65535|down"), input(65535, Direction::Down));
    assert_eq!(decode_input(b"007|left"), input(7, Direction::Left));
    assert_eq!(decode_input(b"+5|right"), input(5, Direction::Right));
    assert_eq!(decode_input(b"0000000000000000000000012|up"), input(12, Direction::Up));
}

#[test]
fn payload_without_separator_is_malformed() {
    assert_eq!(decode_input(b"12"), Err(DecodeError::Malformed));
    assert_eq!(decode_input(b"up"), Err(DecodeError::Malformed));
    assert_eq!(decode_input(b" "), Err(DecodeError::Malformed));
    assert_eq!(decode_input(b"1 right"), Err(DecodeError::Malformed));
}

#[test]
fn payload_with_two_separators_is_malformed() {
    assert_eq!(decode_input(b"1|up|junk"), Err(DecodeError::Malformed));
    assert_eq!(decode_input(b"1||up"), Err(DecodeError::Malformed));
    assert_eq!(decode_input(b"||"), Err(DecodeError::Malformed));
    assert_eq!(decode_input(b"1|up|"), Err(DecodeError::Malformed));
}

#[test]
fn bad_id_is_invalid_player_id() {
    assert_eq!(decode_input(b"abc|up"), Err(DecodeError::InvalidPlayerId));
    assert_eq!(decode_input(b"|up"), Err(DecodeError::InvalidPlayerId));
    assert_eq!(decode_input(b"+|up"), Err(DecodeError::InvalidPlayerId));
    assert_eq!(decode_input(b"-1|up"), Err(DecodeError::InvalidPlayerId));
    assert_eq!(decode_input(b" 1|up"), Err(DecodeError::InvalidPlayerId));
    assert_eq!(decode_input(b"1 |up"), Err(DecodeError::InvalidPlayerId));
    assert_eq!(decode_input(b"1.0|up"), Err(DecodeError::InvalidPlayerId));
    assert_eq!(decode_input(b"65536|up"), Err(DecodeError::InvalidPlayerId));
    assert_eq!(decode_input(b"99999999999999999999999|up"), Err(DecodeError::InvalidPlayerId));
    assert_eq!(decode_input(b"4294967297|up"), Err(DecodeError::InvalidPlayerId));
    assert_eq!(decode_input(&[0xff, b'|', b'u', b'p']), Err(DecodeError::InvalidPlayerId));
}

#[test]
fn bad_direction_is_unknown_direction() {
    assert_eq!(decode_input(b"1|sideways"), Err(DecodeError::UnknownDirection));
    assert_eq!(decode_input(b"1|"), Err(DecodeError::UnknownDirection));
    assert_eq!(decode_input(b"1|UP"), Err(DecodeError::UnknownDirection));
    assert_eq!(decode_input(b"1|up "), Err(DecodeError::UnknownDirection));
    assert_eq!(decode_input(b"1| up"), Err(DecodeError::UnknownDirection));
    assert_eq!(decode_input(b"1|u"), Err(DecodeError::UnknownDirection));
    assert_eq!(decode_input(b"1|rightt"), Err(DecodeError::UnknownDirection));
    assert_eq!(decode_input(b"1|lefu"), Err(DecodeError::UnknownDirection));
}

#[test]
fn the_id_is_judged_before_the_direction() {
    assert_eq!(decode_input(b"x|sideways"), Err(DecodeError::InvalidPlayerId));
    assert_eq!(decode_input(b"|"), Err(DecodeError::InvalidPlayerId));
}

#[test]
fn parses_player_ids() {
    assert_eq!(parse_player_id(b"0"), Some(0));
    assert_eq!(parse_player_id(b"42"), Some(42));
    assert_eq!(parse_player_id(b"+42"), Some(42));
    assert_eq!(parse_player_id(b"65535"), Some(65535));
    assert_eq!(parse_player_id(b"65536"), None);
    assert_eq!(parse_player_id(b"655350"), None);
    assert_eq!(parse_player_id(b""), None);
    assert_eq!(parse_player_id(b"+"), None);
    assert_eq!(parse_player_id(b"++1"), None);
    assert_eq!(parse_player_id(b"1+"), None);
    assert_eq!(parse_player_id(b"12a"), None);
    assert_eq!(parse_player_id(b"/"), None);
    assert_eq!(parse_player_id(b":"), None);
}

#[test]
fn player_id_parser_agrees_with_the_standard_parser() {
    let samples: [&str; 12] = [
        "0", "1", "+1", "-1", "", "+", "65535", "65536", "0065535", "1e3", " 7", "7 ",
    ];
    for text in samples {
        assert_eq!(parse_player_id(text.as_bytes()), text.parse::<u16>().ok(), "{:?}", text);
    }
    for id in [0u16, 9, 10, 99, 100, 4095, 65534, 65535] {
        assert_eq!(parse_player_id(id.to_string().as_bytes()), Some(id));
    }
}

#[test]
fn parses_directions() {
    assert_eq!(parse_direction(b"up"), Some(Direction::Up));
    assert_eq!(parse_direction(b"down"), Some(Direction::Down));
    assert_eq!(parse_direction(b"left"), Some(Direction::Left));
    assert_eq!(parse_direction(b"right"), Some(Direction::Right));
    assert_eq!(parse_direction(b""), None);
    assert_eq!(parse_direction(b"Up"), None);
    assert_eq!(parse_direction(b"dowm"), None);
    assert_eq!(parse_direction(b"lift"), None);
    assert_eq!(parse_direction(b"righ"), None);
}

#[test]
fn encodes_a_snapshot() {
    let snapshot = Snapshot {
        tick: 7,
        players: vec![
            PlayerRecord { id: 1, x: 100, y: 0 },
            PlayerRecord { id: 2, x: 0, y: -100 },
        ],
    };
    assert_eq!(encode_snapshot(&snapshot), b"7=1:100,0;2:0,-100;".to_vec());
}

#[test]
fn encodes_a_snapshot_without_players() {
    let snapshot = Snapshot { tick: 0, players: vec![] };
    assert_eq!(encode_snapshot(&snapshot), b"0=".to_vec());
}

#[test]
fn encodes_the_extremes() {
    let snapshot = Snapshot {
        tick: u64::MAX,
        players: vec![PlayerRecord { id: u16::MAX, x: i64::MIN, y: i64::MAX }],
    };
    let expected = format!("{}={}:{},{};", u64::MAX, u16::MAX, i64::MIN, i64::MAX);
    assert_eq!(
        expected,
        "18446744073709551615=65535:-9223372036854775808,9223372036854775807;"
    );
    assert_eq!(encode_snapshot(&snapshot), expected.into_bytes());
}

#[test]
fn encodes_powers_of_ten_without_leading_zeros() {
    for tick in [0u64, 9, 10, 11, 99, 100, 101, 1000, 1_000_000] {
        let snapshot = Snapshot { tick, players: vec![PlayerRecord { id: 10, x: -10, y: 10 }] };
        let expected = format!("{}=10:-10,10;", tick);
        assert_eq!(encode_snapshot(&snapshot), expected.into_bytes());
    }
}

#[test]
fn encoded_snapshot_is_ascii_text() {
    let snapshot = Snapshot {
        tick: 123,
        players: vec![PlayerRecord { id: 9, x: -5, y: 6 }, PlayerRecord { id: 8, x: 0, y: 0 }],
    };
    let bytes = encode_snapshot(&snapshot);
    assert!(bytes.iter().all(|b| *b < 0x80));
    assert_eq!(String::from_utf8(bytes), Ok("123=9:-5,6;8:0,0;".to_string()));
}

#[test]
fn an_id_written_into_a_snapshot_reads_back() {
    for id in [0u16, 1, 10, 255, 256, 65535] {
        let snapshot = Snapshot { tick: 0, players: vec![PlayerRecord { id, x: 0, y: 0 }] };
        let bytes = encode_snapshot(&snapshot);
        let colon = bytes.iter().position(|b| *b == b':').unwrap();
        assert_eq!(parse_player_id(&bytes[2..colon]), Some(id));
    }
}
