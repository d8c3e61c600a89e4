//! The wire codec: round trips, exact byte layouts, and decode failures.
use netplay::codec::Bits2;
use netplay::codec::DecodeError;
use netplay::codec::MessageData;
use netplay::codec::MsgPlayerInfo;
use netplay::codec::MsgPlayerState;
use netplay::codec::decode;
use netplay::codec::encode;

fn info(id: u32, name: &str, time: f32, x: f32, y: f32) -> MsgPlayerInfo {
    MsgPlayerInfo {
        id,
        name: name.to_string(),
        time: time.to_bits(),
        position: Bits2 { x: x.to_bits(), y: y.to_bits() },
    }
}

fn round_trips(m: MessageData) {
    let bytes = encode(&m);
    let back = decode(m.id(), &bytes).expect("a message must decode under its own tag");
    assert_eq!(back, m);
}

#[test]
fn round_trip_new_player() {
    round_trips(MessageData::NewPlayer(info(7, "Ferris", 5.0, 1.5, -2.0)));
}

#[test]
fn round_trip_new_player_empty_name() {
    round_trips(MessageData::NewPlayer(info(7, "", 0.25, 0.0, 0.0)));
}

#[test]
fn round_trip_new_player_multibyte_name() {
    round_trips(MessageData::NewPlayer(info(1, "f\u{e9}rris\u{1f980}", 1.0, 3.5, 4.5)));
}

#[test]
fn round_trip_init_player() {
    round_trips(MessageData::InitPlayer(info(1, "me", 30.0, -8.0, 9.0)));
}

#[test]
fn round_trip_player_state() {
    round_trips(MessageData::PlayerState(MsgPlayerState {
        id: 3,
        time: 4.5f32.to_bits(),
        position: Bits2 { x: 10.0f32.to_bits(), y: 0.0f32.to_bits() },
        velocity: Bits2 { x: 10.0f32.to_bits(), y: (-0.5f32).to_bits() },
    }));
}

#[test]
fn round_trip_player_disconnected() {
    round_trips(MessageData::PlayerDisconnected(0xdead_beef));
}

#[test]
fn round_trip_player_eat_negative_amount() {
    round_trips(MessageData::PlayerEat((-2.5f32).to_bits()));
}

#[test]
fn kind_tags() {
    assert_eq!(MessageData::Unknown.id(), 0);
    assert_eq!(MessageData::InitPlayer(info(1, "", 0.0, 0.0, 0.0)).id(), 1);
    assert_eq!(MessageData::NewPlayer(info(1, "", 0.0, 0.0, 0.0)).id(), 2);
    assert_eq!(
        MessageData::PlayerState(MsgPlayerState {
            id: 1,
            time: 0,
            position: Bits2 { x: 0, y: 0 },
            velocity: Bits2 { x: 0, y: 0 },
        })
        .id(),
        3
    );
    assert_eq!(MessageData::PlayerDisconnected(1).id(), 4);
    assert_eq!(MessageData::PlayerEat(0).id(), 5);
}

#[test]
fn exact_layout_player_disconnected() {
    let bytes = encode(&MessageData::PlayerDisconnected(0x01020304));
    assert_eq!(bytes, vec![1u8, 2, 3, 4]);
}

#[test]
fn exact_layout_new_player() {
    let m = MessageData::NewPlayer(info(1, "AB", 5.0, 1.5, -2.0));
    let mut expected: Vec<u8> = Vec::new();
    expected.extend_from_slice(&1u32.to_be_bytes());
    expected.extend_from_slice(&2u32.to_be_bytes());
    expected.extend_from_slice(b"AB");
    expected.extend_from_slice(&5.0f32.to_be_bytes());
    expected.extend_from_slice(&1.5f32.to_be_bytes());
    expected.extend_from_slice(&(-2.0f32).to_be_bytes());
    assert_eq!(encode(&m), expected);
}

#[test]
fn exact_layout_player_state() {
    let m = MessageData::PlayerState(MsgPlayerState {
        id: 3,
        time: 4.5f32.to_bits(),
        position: Bits2 { x: 10.0f32.to_bits(), y: 0.0f32.to_bits() },
        velocity: Bits2 { x: 10.0f32.to_bits(), y: 0.0f32.to_bits() },
    });
    let mut expected: Vec<u8> = Vec::new();
    expected.extend_from_slice(&3u32.to_be_bytes());
    expected.extend_from_slice(&4.5f32.to_be_bytes());
    expected.extend_from_slice(&10.0f32.to_be_bytes());
    expected.extend_from_slice(&0.0f32.to_be_bytes());
    expected.extend_from_slice(&10.0f32.to_be_bytes());
    expected.extend_from_slice(&0.0f32.to_be_bytes());
    assert_eq!(encode(&m), expected);
}

#[test]
fn unknown_tag_decodes_to_unknown() {
    assert_eq!(decode(0, &vec![]), Ok(MessageData::Unknown));
    assert_eq!(decode(99, &vec![1, 2, 3]), Ok(MessageData::Unknown));
}

#[test]
fn truncated_new_player_is_an_error() {
    let m = MessageData::NewPlayer(info(7, "A", 5.0, 0.0, 0.0));
    let mut bytes = encode(&m);
    // Drop the trailing float: the buffer ends before a fixed-width field.
    bytes.truncate(bytes.len() - 4);
    assert_eq!(decode(2, &bytes), Err(DecodeError::UnexpectedEnd));
}

#[test]
fn truncated_player_state_is_an_error() {
    let bytes = vec![0u8; 23];
    assert_eq!(decode(3, &bytes), Err(DecodeError::UnexpectedEnd));
}

#[test]
fn short_player_disconnected_is_an_error() {
    assert_eq!(decode(4, &vec![0, 0, 1]), Err(DecodeError::UnexpectedEnd));
    assert_eq!(decode(5, &vec![]), Err(DecodeError::UnexpectedEnd));
}

#[test]
fn oversized_length_prefix_is_an_error() {
    // id, then a name length claiming more bytes than the buffer holds.
    let mut bytes: Vec<u8> = Vec::new();
    bytes.extend_from_slice(&7u32.to_be_bytes());
    bytes.extend_from_slice(&1000u32.to_be_bytes());
    bytes.extend_from_slice(b"short");
    assert_eq!(decode(2, &bytes), Err(DecodeError::UnexpectedEnd));
}

#[test]
fn invalid_utf8_name_is_an_error() {
    let mut bytes: Vec<u8> = Vec::new();
    bytes.extend_from_slice(&7u32.to_be_bytes());
    bytes.extend_from_slice(&1u32.to_be_bytes());
    bytes.push(0xff);
    bytes.extend_from_slice(&5.0f32.to_be_bytes());
    bytes.extend_from_slice(&0.0f32.to_be_bytes());
    bytes.extend_from_slice(&0.0f32.to_be_bytes());
    assert_eq!(decode(2, &bytes), Err(DecodeError::InvalidUtf8));
}

#[test]
fn trailing_bytes_are_ignored() {
    let mut bytes: Vec<u8> = Vec::new();
    bytes.extend_from_slice(&0x01020304u32.to_be_bytes());
    bytes.extend_from_slice(&[9, 9, 9]);
    assert_eq!(decode(4, &bytes), Ok(MessageData::PlayerDisconnected(0x01020304)));
}
