//! The value codec: round trips, exact wire bytes, and every rejection.

use uniffi::codec::{lift, lower, ConversionError, Value};

fn round_trip(v: Value) {
    let buf = lower(&v);
    assert_eq!(lift(&buf), Ok(v));
}

#[test]
fn scalar_round_trips() {
    round_trip(Value::Bool(true));
    round_trip(Value::Bool(false));
    round_trip(Value::U8(0));
    round_trip(Value::U8(255));
    round_trip(Value::I8(-128));
    round_trip(Value::I8(127));
    round_trip(Value::U16(0xBEEF));
    round_trip(Value::I16(-2));
    round_trip(Value::U32(0xDEAD_BEEF));
    round_trip(Value::I32(-123_456));
    round_trip(Value::U64(u64::MAX));
    round_trip(Value::I64(i64::MIN));
}

#[test]
fn text_round_trips() {
    round_trip(Value::Text(String::new()));
    round_trip(Value::Text("All done".to_string()));
    round_trip(Value::Text("snowman \u{2603} and \u{1F980}".to_string()));
}

#[test]
fn composite_round_trips() {
    round_trip(Value::Optional(None));
    round_trip(Value::Optional(Some(Box::new(Value::U32(7)))));
    round_trip(Value::Optional(Some(Box::new(Value::Optional(None)))));
    round_trip(Value::Sequence(vec![]));
    round_trip(Value::Sequence(vec![
        Value::U8(1),
        Value::U8(2),
        Value::U8(3),
    ]));
    round_trip(Value::Sequence(vec![
        Value::Text("a".to_string()),
        Value::Optional(Some(Box::new(Value::Bool(true)))),
        Value::Sequence(vec![Value::I64(-1)]),
    ]));
}

// Fixed-width scalars are big-endian behind a tag byte.
#[test]
fn exact_wire_bytes() {
    assert_eq!(lower(&Value::Bool(true)), vec![1, 1]);
    assert_eq!(lower(&Value::U8(0xAB)), vec![2, 0xAB]);
    assert_eq!(lower(&Value::U16(0x1234)), vec![4, 0x12, 0x34]);
    assert_eq!(lower(&Value::U32(0x0102_0304)), vec![6, 1, 2, 3, 4]);
    assert_eq!(
        lower(&Value::U64(0x0102_0304_0506_0708)),
        vec![8, 1, 2, 3, 4, 5, 6, 7, 8]
    );
    // Two's complement: -1 is all ones.
    assert_eq!(lower(&Value::I16(-1)), vec![5, 0xFF, 0xFF]);
    // Strings: UTF-8 bytes behind a four-byte length.
    assert_eq!(
        lower(&Value::Text("hi".to_string())),
        vec![10, 0, 0, 0, 2, b'h', b'i']
    );
    // Optionals: a presence flag, then the payload.
    assert_eq!(lower(&Value::Optional(None)), vec![11, 0]);
    assert_eq!(
        lower(&Value::Optional(Some(Box::new(Value::Bool(false))))),
        vec![11, 1, 1, 0]
    );
    // Sequences: a four-byte count, then the elements.
    assert_eq!(
        lower(&Value::Sequence(vec![Value::U8(9)])),
        vec![12, 0, 0, 0, 1, 2, 9]
    );
}

#[test]
fn rejects_empty_buffer() {
    assert_eq!(lift(&vec![]), Err(ConversionError::Truncated));
}

#[test]
fn rejects_unknown_tag() {
    assert_eq!(lift(&vec![99]), Err(ConversionError::InvalidTag));
    assert_eq!(lift(&vec![0]), Err(ConversionError::InvalidTag));
}

#[test]
fn rejects_bad_bool() {
    assert_eq!(lift(&vec![1, 2]), Err(ConversionError::InvalidBool));
}

#[test]
fn rejects_bad_flag() {
    assert_eq!(lift(&vec![11, 7]), Err(ConversionError::InvalidFlag));
}

#[test]
fn rejects_truncated_payloads() {
    // A scalar cut short.
    assert_eq!(lift(&vec![4, 0x12]), Err(ConversionError::Truncated));
    // A string whose declared length exceeds the bytes present.
    assert_eq!(
        lift(&vec![10, 0, 0, 0, 5, b'h', b'i']),
        Err(ConversionError::Truncated)
    );
    // A sequence whose declared count exceeds the elements present.
    assert_eq!(
        lift(&vec![12, 0, 0, 0, 2, 2, 9]),
        Err(ConversionError::Truncated)
    );
}

#[test]
fn rejects_invalid_utf8() {
    assert_eq!(
        lift(&vec![10, 0, 0, 0, 1, 0xFF]),
        Err(ConversionError::InvalidUtf8)
    );
}

#[test]
fn rejects_trailing_bytes() {
    assert_eq!(lift(&vec![1, 1, 0]), Err(ConversionError::TrailingBytes));
    let mut buf = lower(&Value::Text("hi".to_string()));
    buf.push(0);
    assert_eq!(lift(&buf), Err(ConversionError::TrailingBytes));
}
