use discord_presence::models::message::{Message, OpCode};
use discord_presence::DiscordError;

fn sample_payload() -> serde_json::Value {
    let mut obj = serde_json::Map::new();
    obj.insert(String::from("empty"), serde_json::Value::Bool(true));
    serde_json::Value::Object(obj)
}

#[test]
fn test_encoder() {
    let msg = Message::new(OpCode::Frame, sample_payload()).expect("Failed to serialize message");
    let encoded = msg.encode().expect("Failed to encode message");
    let decoded = Message::decode(&encoded).expect("Failed to decode message");
    assert_eq!(msg, decoded);
}

#[test]
fn test_opcode() {
    assert_eq!(OpCode::from_u32(0), Some(OpCode::Handshake));
    assert_eq!(OpCode::from_u32(4), Some(OpCode::Pong));
    assert_eq!(OpCode::from_u32(5), None);
}

#[test]
fn serializes_to_canonical_text() {
    let msg = Message::new(OpCode::Frame, sample_payload()).expect("Failed to serialize message");
    assert_eq!(msg.payload, String::from("{\"empty\":true}"));
}

#[test]
fn exact_wire_bytes() {
    let msg = Message::from_payload(OpCode::Handshake, String::from("hi"));
    let encoded = msg.encode().expect("Failed to encode message");
    assert_eq!(encoded, vec![0, 0, 0, 0, 2, 0, 0, 0, b'h', b'i']);
}

#[test]
fn round_trip_empty_payload() {
    let msg = Message::from_payload(OpCode::Pong, String::new());
    let encoded = msg.encode().expect("Failed to encode message");
    assert_eq!(encoded, vec![4, 0, 0, 0, 0, 0, 0, 0]);
    let decoded = Message::decode(&encoded).expect("Failed to decode message");
    assert_eq!(msg, decoded);
}

#[test]
fn round_trip_multibyte_text() {
    let msg = Message::from_payload(OpCode::Close, String::from("caf\u{e9} \u{2713}"));
    let encoded = msg.encode().expect("Failed to encode message");
    let decoded = Message::decode(&encoded).expect("Failed to decode message");
    assert_eq!(msg, decoded);
    assert_eq!(decoded.payload, String::from("caf\u{e9} \u{2713}"));
}

#[test]
fn decode_rejects_short_header() {
    assert_eq!(Message::decode(&[1, 0, 0]), Err(DiscordError::Truncated));
    assert_eq!(Message::decode(&[]), Err(DiscordError::Truncated));
}

#[test]
fn decode_rejects_unknown_opcode() {
    let bytes = [5, 0, 0, 0, 0, 0, 0, 0];
    assert_eq!(Message::decode(&bytes), Err(DiscordError::Conversion));
}

#[test]
fn decode_rejects_missing_payload_bytes() {
    let bytes = [1, 0, 0, 0, 3, 0, 0, 0, b'a', b'b'];
    assert_eq!(Message::decode(&bytes), Err(DiscordError::Truncated));
}

#[test]
fn decode_rejects_invalid_text() {
    let bytes = [1, 0, 0, 0, 1, 0, 0, 0, 0xff];
    assert_eq!(Message::decode(&bytes), Err(DiscordError::InvalidText));
}

#[test]
fn small_payload_fits() {
    let msg = Message::from_payload(OpCode::Frame, String::from("{}"));
    assert!(msg.payload_fits());
}

#[test]
fn serialization_failure_is_reported() {
    let mut keys = std::collections::BTreeMap::new();
    keys.insert((1u8, 2u8), 3u8);
    assert_eq!(Message::new(OpCode::Frame, keys), Err(DiscordError::Serialization));
}
