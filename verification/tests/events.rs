use dim_catalog::{Message, PushEventType};
use serde_json::Value;

fn decoded(payload: &str) -> Value {
    match serde_json::from_str::<Value>(payload) {
        Ok(value) => value,
        Err(error) => panic!("payload is not JSON: {payload}: {error}"),
    }
}

#[test]
fn new_library_message_carries_tag_and_id() {
    let message = Message { id: 7, event_type: PushEventType::EventNewLibrary };
    let payload = message.serialize();
    let value = decoded(&payload);
    assert_eq!(value.get("type").and_then(Value::as_str), Some("EventNewLibrary"));
    assert_eq!(value.get("id").and_then(Value::as_i64), Some(7));
}

#[test]
fn payload_is_a_compact_object_of_two_members() {
    let message = Message { id: 7, event_type: PushEventType::EventNewLibrary };
    assert_eq!(message.serialize(), "{\"id\":7,\"type\":\"EventNewLibrary\"}");
    let value = decoded(&message.serialize());
    assert_eq!(value.as_object().map(|members| members.len()), Some(2));
}

#[test]
fn each_event_has_its_own_tag() {
    let cases = [
        (PushEventType::EventNewCard, "EventNewCard"),
        (PushEventType::EventRemoveCard, "EventRemoveCard"),
        (PushEventType::EventNewLibrary, "EventNewLibrary"),
        (PushEventType::EventRemoveLibrary, "EventRemoveLibrary"),
    ];
    for (event_type, tag) in cases {
        assert_eq!(event_type.as_str(), tag);
        let payload = Message { id: 1, event_type }.serialize();
        assert_eq!(payload, format!("{{\"id\":1,\"type\":\"{tag}\"}}"));
        assert_eq!(decoded(&payload).get("type").and_then(Value::as_str), Some(tag));
    }
}

#[test]
fn ids_are_written_in_decimal() {
    let cases = [
        (0, "0"),
        (9, "9"),
        (10, "10"),
        (-1, "-1"),
        (1234567890, "1234567890"),
        (i32::MAX, "2147483647"),
        (i32::MIN, "-2147483648"),
    ];
    for (id, text) in cases {
        let payload = Message { id, event_type: PushEventType::EventRemoveCard }.serialize();
        assert_eq!(payload, format!("{{\"id\":{text},\"type\":\"EventRemoveCard\"}}"));
        assert_eq!(decoded(&payload).get("id").and_then(Value::as_i64), Some(i64::from(id)));
    }
}

#[test]
fn serialize_is_deterministic() {
    let message = Message { id: -42, event_type: PushEventType::EventRemoveLibrary };
    assert_eq!(message.serialize(), message.serialize());
    assert_eq!(message.serialize(), "{\"id\":-42,\"type\":\"EventRemoveLibrary\"}");
}
