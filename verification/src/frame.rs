//! Frames: what travels over a player's connection.

use vstd::prelude::*;
use vstd::string::{StrSliceExecFns, StringExecFns};
use crate::decimal::{
    decimal, digit_of, digits, is_digit, lemma_digits_read_back, lemma_u32_has_ten_digits,
    number_in, read_decimal, write_decimal,
};
use crate::json::{json_value, read_value};
use crate::text::same_text;
use crate::wire::{
    agrees, field, owned, pick, read_fields, read_tagged, read_u32, tagged, u32_in, DecodeError,
};

verus! {

/// One record on the wire: a numbered message, or the acknowledgement of one.
#[derive(Debug, Clone, PartialEq, Eq, Hash)]
pub enum Frame<T> {
    Msg { id: u32, val: T },
    Ack(u32),
}

impl<T: View> View for Frame<T> {
    type V = Frame<T::V>;

    open spec fn view(&self) -> Frame<T::V> {
        match *self {
            Frame::Msg { id, val } => Frame::Msg { id, val: val@ },
            Frame::Ack(id) => Frame::Ack(id),
        }
    }
}

/// The text of a message frame around the payload `val`.
pub open spec fn msg_text(id: u32, val: Seq<char>) -> Seq<char> {
    "{\"type\":\"msg\",\"data\":{\"id\":"@ + decimal(id as int) + ",\"val\":"@ + val + "}}"@
}

/// The text of an acknowledgement. No payload has a part in it.
pub open spec fn ack_text(id: u32) -> Seq<char> {
    "{\"type\":\"ack\",\"data\":"@ + decimal(id as int) + "}"@
}

/// The text of a frame.
pub open spec fn frame_text(frame: Frame<Seq<char>>) -> Seq<char> {
    match frame {
        Frame::Msg { id, val } => msg_text(id, val),
        Frame::Ack(id) => ack_text(id),
    }
}

/// How many digits stand in `s` from `from` on in a row, counted up to `limit`.
pub open spec fn digit_run(s: Seq<char>, from: int, limit: nat) -> nat
    decreases limit,
{
    if limit > 0 && 0 <= from < s.len() && is_digit(s[from]) {
        1 + digit_run(s, from + 1, (limit - 1) as nat)
    } else {
        0
    }
}

/// The id of `text` where `text` is an acknowledgement just as `ack_text` writes
/// it.
pub open spec fn plain_ack(text: Seq<char>) -> Option<u32> {
    let head = "{\"type\":\"ack\",\"data\":"@;
    let tail = "}"@;
    if text.len() >= head.len() + tail.len() && text.subrange(0, head.len() as int) == head
        && text.subrange(text.len() - tail.len(), text.len() as int) == tail {
        number_in(text.subrange(head.len() as int, text.len() - tail.len()))
    } else {
        None
    }
}

/// The id and the payload of `text` where `text` is a message just as `msg_text`
/// writes it, around a payload that is one JSON value without white space
/// around it.
pub open spec fn plain_msg(text: Seq<char>) -> Option<(u32, Seq<char>)> {
    let head = "{\"type\":\"msg\",\"data\":{\"id\":"@;
    let mid = ",\"val\":"@;
    let tail = "}}"@;
    let at = head.len() + digit_run(text, head.len() as int, 11);
    if text.len() >= at + mid.len() + tail.len() && text.subrange(0, head.len() as int) == head
        && text.subrange(at as int, (at + mid.len()) as int) == mid && text.subrange(
        text.len() - tail.len(),
        text.len() as int,
    ) == tail {
        let val = text.subrange((at + mid.len()) as int, text.len() - tail.len());
        match number_in(text.subrange(head.len() as int, at as int)) {
            Some(id) => if json_value(val) == Some(val) {
                Some((id, val))
            } else {
                None
            },
            None => None,
        }
    } else {
        None
    }
}

/// The frame that `text` denotes: what `ack_text` or `msg_text` wrote, and else
/// what the text holds as a tagged JSON object in any layout.
pub open spec fn frame_of(text: Seq<char>) -> Result<Frame<Seq<char>>, DecodeError> {
    match plain_ack(text) {
        Some(id) => Ok(Frame::Ack(id)),
        None => match plain_msg(text) {
            Some((id, val)) => Ok(Frame::Msg { id, val }),
            None => tagged_frame_of(text),
        },
    }
}

/// The frame that `text` denotes as a tagged JSON object.
pub open spec fn tagged_frame_of(text: Seq<char>) -> Result<Frame<Seq<char>>, DecodeError> {
    match tagged(text) {
        Err(e) => Err(e),
        Ok((tag, data)) => if tag == "msg"@ {
            match (u32_in(field(data, "id"@)), field(data, "val"@)) {
                (Some(id), Some(val)) => Ok(Frame::Msg { id, val }),
                _ => Err(DecodeError::BadData),
            }
        } else if tag == "ack"@ {
            match u32_in(data) {
                Some(id) => Ok(Frame::Ack(id)),
                None => Err(DecodeError::BadData),
            }
        } else {
            Err(DecodeError::UnknownTag)
        },
    }
}

/// Writes a message frame around a payload that is JSON text already.
pub fn encode_msg(id: u32, val: &str) -> (text: String)
    ensures
        text@ == msg_text(id, val@),
{
    let mut text = "{\"type\":\"msg\",\"data\":{\"id\":".to_owned();
    text.append(write_decimal(id as i64).as_str());
    text.append(",\"val\":");
    text.append(val);
    text.append("}}");
    text
}

/// Writes an acknowledgement.
pub fn encode_ack(id: u32) -> (text: String)
    ensures
        text@ == ack_text(id),
{
    let mut text = "{\"type\":\"ack\",\"data\":".to_owned();
    text.append(write_decimal(id as i64).as_str());
    text.append("}");
    text
}

/// Writes a frame.
pub fn encode_frame(frame: &Frame<String>) -> (text: String)
    ensures
        text@ == frame_text(frame@),
{
    match frame {
        Frame::Msg { id, val } => encode_msg(*id, val.as_str()),
        Frame::Ack(id) => encode_ack(*id),
    }
}

/// Counts the digits that stand in `text` from `from` on in a row, up to eleven.
fn count_digits(text: &str, from: usize) -> (run: usize)
    requires
        from <= text@.len(),
    ensures
        run == digit_run(text@, from as int, 11),
        from + run <= text@.len(),
        run <= 11,
{
    let len = text.unicode_len();
    let mut run: usize = 0;
    while run < 11 && run < len - from
        invariant
            from <= len,
            len == text@.len(),
            run <= 11,
            run <= len - from,
            digit_run(text@, from as int, 11) == run + digit_run(
                text@,
                from + run,
                (11 - run) as nat,
            ),
        decreases 11 - run,
    {
        if digit_of(text.get_char(from + run)).is_none() {
            return run;
        }
        run += 1;
    }
    run
}

/// Reads an acknowledgement that is written just as `encode_ack` writes it.
fn decode_plain_ack(text: &str) -> (id: Option<u32>)
    ensures
        id == plain_ack(text@),
{
    let head = "{\"type\":\"ack\",\"data\":";
    let tail = "}";
    let len = text.unicode_len();
    let h = head.unicode_len();
    let t = tail.unicode_len();
    if len < h || len - h < t {
        return None;
    }
    if !same_text(text.substring_char(0, h), head) {
        return None;
    }
    if !same_text(text.substring_char(len - t, len), tail) {
        return None;
    }
    read_decimal(text.substring_char(h, len - t))
}

/// Reads a message that is written just as `encode_msg` writes it.
fn decode_plain_msg(text: &str) -> (found: Option<(u32, String)>)
    ensures
        found.deep_view() == plain_msg(text@),
{
    let head = "{\"type\":\"msg\",\"data\":{\"id\":";
    let mid = ",\"val\":";
    let tail = "}}";
    let len = text.unicode_len();
    let h = head.unicode_len();
    let m = mid.unicode_len();
    let t = tail.unicode_len();
    if len < h {
        return None;
    }
    let at = h + count_digits(text, h);
    if len - at < m || len - at - m < t {
        return None;
    }
    if !same_text(text.substring_char(0, h), head) {
        return None;
    }
    if !same_text(text.substring_char(at, at + m), mid) {
        return None;
    }
    if !same_text(text.substring_char(len - t, len), tail) {
        return None;
    }
    let id = match read_decimal(text.substring_char(h, at)) {
        None => {
            return None;
        },
        Some(id) => id,
    };
    let val = text.substring_char(at + m, len - t);
    match read_value(val.to_owned()) {
        None => None,
        Some(value) => if same_text(value.as_str(), val) {
            Some((id, value))
        } else {
            None
        },
    }
}

/// Reads a frame. The payload of a message comes back as the JSON text it was.
pub fn decode_frame(text: &str) -> (frame: Result<Frame<String>, DecodeError>)
    ensures
        agrees(frame, frame_of(text@)),
{
    match decode_plain_ack(text) {
        Some(id) => {
            return Ok(Frame::Ack(id));
        },
        None => {},
    }
    match decode_plain_msg(text) {
        Some((id, val)) => {
            return Ok(Frame::Msg { id, val });
        },
        None => {},
    }
    decode_tagged_frame(text)
}

/// Reads a frame that is a tagged JSON object in any layout.
fn decode_tagged_frame(text: &str) -> (frame: Result<Frame<String>, DecodeError>)
    ensures
        agrees(frame, tagged_frame_of(text@)),
{
    let (tag, data) = match read_tagged(text) {
        Err(e) => {
            return Err(e);
        },
        Ok(parts) => parts,
    };
    let data: Option<&str> = match &data {
        None => None,
        Some(d) => Some(d.as_str()),
    };
    let tag = tag.as_str();
    if same_text(tag, "msg") {
        let fields = read_fields(data);
        match (read_u32(pick(&fields, "id")), owned(pick(&fields, "val"))) {
            (Some(id), Some(val)) => Ok(Frame::Msg { id, val }),
            _ => Err(DecodeError::BadData),
        }
    } else if same_text(tag, "ack") {
        match read_u32(data) {
            Some(id) => Ok(Frame::Ack(id)),
            None => Err(DecodeError::BadData),
        }
    } else {
        Err(DecodeError::UnknownTag)
    }
}

/// A run of `count` digits that ends before the limit, at a character that is no
/// digit or at the end of the text, is counted in full.
pub proof fn lemma_digit_run(s: Seq<char>, from: int, count: nat, limit: nat)
    requires
        0 <= from,
        from + count <= s.len(),
        count < limit,
        forall|j: int| from <= j < from + count ==> is_digit(#[trigger] s[j]),
        from + count < s.len() ==> !is_digit(s[from + count]),
    ensures
        digit_run(s, from, limit) == count,
    decreases count,
{
    if count > 0 {
        lemma_digit_run(s, from + 1, (count - 1) as nat, (limit - 1) as nat);
    }
}

/// An acknowledgement that is written and read back is the same acknowledgement.
pub proof fn lemma_ack_comes_back(id: u32)
    ensures
        plain_ack(ack_text(id)) == Some(id),
        frame_of(ack_text(id)) == Ok::<Frame<Seq<char>>, DecodeError>(Frame::Ack(id)),
{
    let head = "{\"type\":\"ack\",\"data\":"@;
    let tail = "}"@;
    let number = digits(id as nat);
    let text = ack_text(id);
    lemma_digits_read_back(id as nat);
    assert(text.subrange(0, head.len() as int) =~= head);
    assert(text.subrange(text.len() - tail.len(), text.len() as int) =~= tail);
    assert(text.subrange(head.len() as int, text.len() - tail.len()) =~= number);
}

/// A message that is written around one JSON value and read back is the same
/// message.
pub proof fn lemma_msg_comes_back(id: u32, val: Seq<char>)
    requires
        json_value(val) == Some(val),
    ensures
        plain_msg(msg_text(id, val)) == Some((id, val)),
        frame_of(msg_text(id, val)) == Ok::<Frame<Seq<char>>, DecodeError>(Frame::Msg { id, val }),
{
    let head = "{\"type\":\"msg\",\"data\":{\"id\":"@;
    let mid = ",\"val\":"@;
    let tail = "}}"@;
    let number = digits(id as nat);
    let text = msg_text(id, val);
    lemma_digits_read_back(id as nat);
    lemma_u32_has_ten_digits(id as nat);
    let at = head.len() + number.len();
    assert(text.subrange(0, head.len() as int) =~= head);
    assert(text.subrange(head.len() as int, at as int) =~= number);
    assert(text.subrange(at as int, (at + mid.len()) as int) =~= mid);
    assert(text.subrange((at + mid.len()) as int, text.len() - tail.len()) =~= val);
    assert(text.subrange(text.len() - tail.len(), text.len() as int) =~= tail);
    assert(digit_run(text, head.len() as int, 11) == number.len()) by {
        reveal_strlit(",\"val\":");
        assert forall|j: int| head.len() <= j < head.len() + number.len() implies is_digit(
            #[trigger] text[j],
        ) by {
            assert(text[j] == number[j - head.len()]);
        }
        lemma_digit_run(text, head.len() as int, number.len(), 11);
    }
    assert(plain_ack(text) is None) by {
        reveal_strlit("{\"type\":\"ack\",\"data\":");
        reveal_strlit("{\"type\":\"msg\",\"data\":{\"id\":");
        let other = "{\"type\":\"ack\",\"data\":"@;
        if text.len() >= other.len() && text.subrange(0, other.len() as int) == other {
            assert(text.subrange(0, other.len() as int)[9] == text[9]);
            assert(text[9] == 'm' && other[9] == 'a');
        }
    }
}

/// A frame that is written and read back is the same frame, whatever JSON value
/// is the payload of a message.
pub proof fn lemma_frame_round_trip(frame: Frame<Seq<char>>)
    requires
        frame matches Frame::Msg { val, .. } ==> json_value(val) == Some(val),
    ensures
        frame_of(frame_text(frame)) == Ok::<Frame<Seq<char>>, DecodeError>(frame),
{
    match frame {
        Frame::Msg { id, val } => lemma_msg_comes_back(id, val),
        Frame::Ack(id) => lemma_ack_comes_back(id),
    }
}

} // verus!
