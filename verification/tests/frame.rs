use rulebook::frame::{decode_frame, encode_ack, encode_frame, encode_msg, Frame};
use rulebook::wire::DecodeError;

#[test]
fn frames_are_written_tag_first() {
    assert_eq!(encode_msg(0, "null"), r#"{"type":"msg","data":{"id":0,"val":null}}"#);
    assert_eq!(
        encode_msg(4294967295, r#"{"a":[1,2]}"#),
        r#"{"type":"msg","data":{"id":4294967295,"val":{"a":[1,2]}}}"#
    );
    assert_eq!(encode_ack(7), r#"{"type":"ack","data":7}"#);
    assert_eq!(
        encode_frame(&Frame::Msg { id: 3, val: "42".to_string() }),
        r#"{"type":"msg","data":{"id":3,"val":42}}"#
    );
    assert_eq!(encode_frame(&Frame::Ack(3)), r#"{"type":"ack","data":3}"#);
}

#[test]
fn frames_round_trip() {
    let payloads = [
        "null",
        "42",
        "-1.5e3",
        "\"text with \\\"quotes\\\" and }} braces\"",
        "[1,[2,[3]]]",
        r#"{"type":"syncResult","data":{"id":9,"val":"x"}}"#,
        r#"{"id":1,"val":2}"#,
    ];
    for (i, payload) in payloads.iter().enumerate() {
        let frame = Frame::Msg { id: i as u32 * 1000, val: payload.to_string() };
        assert_eq!(decode_frame(&encode_frame(&frame)), Ok(frame));
    }
    for id in [0, 1, 7, 65536, u32::MAX] {
        let frame: Frame<String> = Frame::Ack(id);
        assert_eq!(decode_frame(&encode_frame(&frame)), Ok(frame));
    }
}

#[test]
fn acks_do_not_depend_on_a_payload() {
    let of_strings: Frame<String> = Frame::Ack(5);
    assert_eq!(encode_frame(&of_strings), encode_ack(5));
    assert_eq!(decode_frame(&encode_ack(5)), Ok(Frame::Ack(5)));
    assert_eq!(decode_frame(r#"{"type":"ack","data":5,"val":"ignored"}"#), Ok(Frame::Ack(5)));
}

#[test]
fn frames_are_read_in_any_layout() {
    let text = "\n{ \"data\": { \"val\": [ 1, 2 ], \"id\": 12 },\n  \"type\": \"msg\" }\n";
    assert_eq!(decode_frame(text), Ok(Frame::Msg { id: 12, val: "[ 1, 2 ]".to_string() }));
}

#[test]
fn frames_that_are_none_are_refused() {
    assert_eq!(decode_frame("hello"), Err(DecodeError::NotAnObject));
    assert_eq!(decode_frame("5"), Err(DecodeError::NotAnObject));
    assert_eq!(decode_frame("{}"), Err(DecodeError::NoTag));
    assert_eq!(decode_frame(r#"{"type":"nack","data":1}"#), Err(DecodeError::UnknownTag));
    assert_eq!(decode_frame(r#"{"type":"ack"}"#), Err(DecodeError::BadData));
    assert_eq!(decode_frame(r#"{"type":"ack","data":-1}"#), Err(DecodeError::BadData));
    assert_eq!(decode_frame(r#"{"type":"ack","data":4294967296}"#), Err(DecodeError::BadData));
    assert_eq!(decode_frame(r#"{"type":"ack","data":"1"}"#), Err(DecodeError::BadData));
    assert_eq!(decode_frame(r#"{"type":"msg","data":{"id":1}}"#), Err(DecodeError::BadData));
    assert_eq!(decode_frame(r#"{"type":"msg","data":{"val":1}}"#), Err(DecodeError::BadData));
    assert_eq!(decode_frame(r#"{"type":"msg","data":5}"#), Err(DecodeError::BadData));
    assert_eq!(decode_frame(r#"{"type":"msg"}"#), Err(DecodeError::BadData));
}

#[test]
fn frames_as_written_and_frames_in_another_layout_read_alike() {
    let plain = r#"{"type":"msg","data":{"id":10,"val":{"k":"}}"}}}"#;
    let spaced = r#"{"type":"msg","data":{"id":10,"val": {"k":"}}"} }}"#;
    let swapped = r#"{"data":{"val":{"k":"}}"},"id":10},"type":"msg"}"#;
    let frame = Frame::Msg { id: 10, val: r#"{"k":"}}"}"#.to_string() };
    assert_eq!(decode_frame(plain), Ok(frame.clone()));
    assert_eq!(decode_frame(spaced), Ok(frame.clone()));
    assert_eq!(decode_frame(swapped), Ok(frame));
    assert_eq!(decode_frame(r#"{"type":"ack","data": 3}"#), Ok(Frame::Ack(3)));
    assert_eq!(decode_frame(r#"{"type":"ack","data":3} "#), Ok(Frame::Ack(3)));
}

#[test]
fn numbers_that_are_not_written_plainly_are_left_to_the_json_reader() {
    assert_eq!(decode_frame(r#"{"type":"ack","data":03}"#), Err(DecodeError::NotAnObject));
    assert_eq!(decode_frame(r#"{"type":"ack","data":}"#), Err(DecodeError::NotAnObject));
    assert_eq!(decode_frame(r#"{"type":"ack","data":+3}"#), Err(DecodeError::NotAnObject));
    assert_eq!(
        decode_frame(r#"{"type":"ack","data":99999999999}"#),
        Err(DecodeError::BadData)
    );
    assert_eq!(
        decode_frame(r#"{"type":"msg","data":{"id":4294967296,"val":1}}"#),
        Err(DecodeError::BadData)
    );
    assert_eq!(
        decode_frame(r#"{"type":"msg","data":{"id":1,"val":1},"more":{"x":2}}"#),
        Ok(Frame::Msg { id: 1, val: "1".to_string() })
    );
    assert_eq!(
        decode_frame(r#"{"type":"msg","data":{"id":1,"val":}}"#),
        Err(DecodeError::NotAnObject)
    );
    assert_eq!(
        decode_frame(r#"{"type":"msg","data":{"id":1,"val":1 2}}"#),
        Err(DecodeError::NotAnObject)
    );
}
