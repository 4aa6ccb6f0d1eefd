//! Messages read from a worker link: the first payload byte tells what the rest is.
use crate::framing::{decode_frame, frame_complete, frame_error, frame_len, frame_payload, FrameError};
use vstd::prelude::*;
use vstd::utf8::{decode_utf8, valid_utf8};

verus! {

/// Tag of a structured (JSON) message.
pub const TAG_JSON: u8 = 123;

/// Tag of a debug log line.
pub const TAG_DEBUG: u8 = 68;

/// Tag of a warning log line.
pub const TAG_WARN: u8 = 87;

/// Tag of an error log line.
pub const TAG_ERROR: u8 = 69;

/// Tag of a dump log line.
pub const TAG_DUMP: u8 = 88;

/// One message read from the worker.
#[derive(Debug)]
pub enum ChannelMessage {
    /// JSON message
    Json(String),
    /// Debug log
    Debug(String),
    /// Warn log
    Warn(String),
    /// Error log
    Error(String),
    /// Dump log
    Dump(String),
    /// Unknown tag, or text that is not UTF-8
    Unknown { command: u8, data: Vec<u8> },
}

pub open spec fn is_text_tag(command: u8) -> bool {
    command == TAG_JSON || command == TAG_DEBUG || command == TAG_WARN || command == TAG_ERROR
        || command == TAG_DUMP
}

/// The bytes whose text a message with tag `command` and body `data` carries: a JSON document
/// starts with its tag, a log line is the body alone.
pub open spec fn text_bytes(command: u8, data: Seq<u8>) -> Seq<u8> {
    if command == TAG_JSON {
        seq![TAG_JSON] + data
    } else {
        data
    }
}

/// `message` is what a payload with tag `command` and body `data` stands for.
pub open spec fn message_of(command: u8, data: Seq<u8>, message: ChannelMessage) -> bool {
    if is_text_tag(command) && valid_utf8(text_bytes(command, data)) {
        let text = decode_utf8(text_bytes(command, data));
        match message {
            ChannelMessage::Json(s) => command == TAG_JSON && s@ == text,
            ChannelMessage::Debug(s) => command == TAG_DEBUG && s@ == text,
            ChannelMessage::Warn(s) => command == TAG_WARN && s@ == text,
            ChannelMessage::Error(s) => command == TAG_ERROR && s@ == text,
            ChannelMessage::Dump(s) => command == TAG_DUMP && s@ == text,
            ChannelMessage::Unknown { .. } => false,
        }
    } else {
        match message {
            ChannelMessage::Unknown { command: c, data: d } => c == command && d@ == data,
            _ => false,
        }
    }
}

/// Relies on `String::from_utf8`: it accepts exactly the byte strings that are valid UTF-8,
/// and the string it returns holds the characters they encode.
#[verifier::external_body]
fn utf8_string(bytes: &Vec<u8>) -> (r: Option<String>)
    ensures
        r is Some <==> valid_utf8(bytes@),
        r is Some ==> r->Some_0@ == decode_utf8(bytes@),
{
    match String::from_utf8(bytes.clone()) {
        Ok(s) => Some(s),
        Err(_) => None,
    }
}

/// Turns a tag and a body into a message.
pub fn deserialize_message(command: u8, data: Vec<u8>) -> (r: ChannelMessage)
    ensures
        message_of(command, data@, r),
{
    if command == TAG_JSON || command == TAG_DEBUG || command == TAG_WARN || command == TAG_ERROR
        || command == TAG_DUMP {
        let mut bytes: Vec<u8> = Vec::new();
        if command == TAG_JSON {
            bytes.push(TAG_JSON);
        }
        let ghost head = bytes@;
        let mut i: usize = 0;
        while i < data.len()
            invariant
                i <= data@.len(),
                bytes@ == head + data@.take(i as int),
            decreases data@.len() - i,
        {
            bytes.push(data[i]);
            i = i + 1;
            assert(data@.take(i as int) =~= data@.take(i - 1).push(data@[i - 1]));
        }
        assert(data@.take(i as int) =~= data@);
        assert(bytes@ =~= text_bytes(command, data@));
        match utf8_string(&bytes) {
            Some(text) => {
                if command == TAG_JSON {
                    ChannelMessage::Json(text)
                } else if command == TAG_DEBUG {
                    ChannelMessage::Debug(text)
                } else if command == TAG_WARN {
                    ChannelMessage::Warn(text)
                } else if command == TAG_ERROR {
                    ChannelMessage::Error(text)
                } else {
                    ChannelMessage::Dump(text)
                }
            },
            None => ChannelMessage::Unknown { command, data },
        }
    } else {
        ChannelMessage::Unknown { command, data }
    }
}

/// Turns a frame payload into a message: its first byte is the tag, the rest the body.
/// An empty payload carries no message.
pub fn message_from_payload(payload: &[u8]) -> (r: Option<ChannelMessage>)
    ensures
        payload@.len() == 0 <==> r is None,
        r is Some ==> message_of(payload@[0], payload@.drop_first(), r->Some_0),
{
    if payload.len() == 0 {
        return None;
    }
    let mut data: Vec<u8> = Vec::new();
    let mut i: usize = 1;
    while i < payload.len()
        invariant
            1 <= i <= payload@.len(),
            data@ == payload@.subrange(1, i as int),
        decreases payload@.len() - i,
    {
        data.push(payload[i]);
        i = i + 1;
        assert(payload@.subrange(1, i as int) =~= payload@.subrange(1, i - 1).push(payload@[i - 1]));
    }
    assert(data@ =~= payload@.drop_first());
    Some(deserialize_message(payload[0], data))
}

/// Reads the first message of the stream `b`: `Ok(Some((message, used)))` when a whole frame with
/// a non-empty payload is there, `Ok(None)` when more bytes are needed.
/// A frame with an empty payload is refused as a bad length, since it cannot hold a tag.
pub fn read_message(b: &[u8]) -> (r: Result<Option<(ChannelMessage, usize)>, FrameError>)
    ensures
        match r {
            Err(e) => frame_error(b@) == Some(e) || (frame_complete(b@) && frame_payload(b@).len()
                == 0 && e == FrameError::BadLength),
            Ok(None) => frame_error(b@).is_none() && !frame_complete(b@),
            Ok(Some((m, used))) => {
                &&& frame_complete(b@)
                &&& frame_payload(b@).len() > 0
                &&& message_of(frame_payload(b@)[0], frame_payload(b@).drop_first(), m)
                &&& used == frame_len(b@)
            },
        },
{
    match decode_frame(b) {
        Err(e) => Err(e),
        Ok(None) => Ok(None),
        Ok(Some((payload, used))) => match message_from_payload(payload.as_slice()) {
            Some(m) => Ok(Some((m, used))),
            None => Err(FrameError::BadLength),
        },
    }
}

} // verus!
