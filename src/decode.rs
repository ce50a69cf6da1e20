//! Turning one record into one chat stream event.
use vstd::prelude::*;
use crate::chat::{ChatResponse, StreamEvent};
use crate::json::{JsonValue, json_of, parse_json, member, str_at, bool_at, get_str, get_bool, find_member};

verus! {

/// Why a record did not decode. Either way the stream goes on with the next record.
#[derive(Debug, Clone, Copy, PartialEq, Eq, Structural)]
pub enum DecodeError {
    /// Not a JSON object, or a field that the event needs is missing or of the wrong kind.
    Malformed,
    /// The `event_type` names no known event.
    UnknownEventType,
}

/// The closing reply held in a JSON value, if it is an object with the three string fields.
pub open spec fn response_of(v: JsonValue) -> Option<ChatResponse> {
    match v {
        JsonValue::Object(fs) => match (
            str_at(fs@, "generation_id"@),
            str_at(fs@, "response_id"@),
            str_at(fs@, "text"@),
        ) {
            (Some(g), Some(r), Some(t)) => Some(ChatResponse { generation_id: g, response_id: r, text: t }),
            _ => None,
        },
        _ => None,
    }
}

/// The event that a JSON value encodes: its `event_type` picks the variant, whose fields are
/// then read; other members are ignored.
pub open spec fn event_of(v: JsonValue) -> Result<StreamEvent, DecodeError> {
    match v {
        JsonValue::Object(fs) => match str_at(fs@, "event_type"@) {
            None => Err(DecodeError::Malformed),
            Some(t) => if t@ == "stream-start"@ {
                match (str_at(fs@, "generation_id"@), bool_at(fs@, "is_finished"@)) {
                    (Some(g), Some(f)) => Ok(StreamEvent::Start { generation_id: g, is_finished: f }),
                    _ => Err(DecodeError::Malformed),
                }
            } else if t@ == "text-generation"@ {
                match (bool_at(fs@, "is_finished"@), str_at(fs@, "text"@)) {
                    (Some(f), Some(x)) => Ok(StreamEvent::TextGeneration { is_finished: f, text: x }),
                    _ => Err(DecodeError::Malformed),
                }
            } else if t@ == "stream-end"@ {
                match (
                    str_at(fs@, "finish_reason"@),
                    bool_at(fs@, "is_finished"@),
                    member(fs@, "response"@),
                ) {
                    (Some(reason), Some(f), Some(rv)) => match response_of(rv) {
                        Some(resp) => Ok(
                            StreamEvent::End { finish_reason: reason, is_finished: f, response: resp },
                        ),
                        None => Err(DecodeError::Malformed),
                    },
                    _ => Err(DecodeError::Malformed),
                }
            } else {
                Err(DecodeError::UnknownEventType)
            },
        },
        _ => Err(DecodeError::Malformed),
    }
}

/// What a record decodes to: an empty record, or one that is no JSON text, is malformed.
pub open spec fn decode_record(record: Seq<u8>) -> Result<StreamEvent, DecodeError> {
    if record.len() == 0 {
        Err(DecodeError::Malformed)
    } else {
        match json_of(record) {
            Some(v) => event_of(v),
            None => Err(DecodeError::Malformed),
        }
    }
}

/// A member whose key is not `key` does not change what `key` looks up, wherever it is added.
pub proof fn lemma_member_other_key(
    fields: Seq<(String, JsonValue)>,
    extra: (String, JsonValue),
    key: Seq<char>,
)
    requires
        extra.0@ != key,
    ensures
        member(fields.push(extra), key) == member(fields, key),
    decreases fields.len(),
{
    if fields.len() > 0 {
        assert(fields.push(extra).drop_first() == fields.drop_first().push(extra));
        assert(fields.push(extra)[0] == fields[0]);
        lemma_member_other_key(fields.drop_first(), extra, key);
    } else {
        assert(fields.push(extra).drop_first() == Seq::<(String, JsonValue)>::empty());
        assert(fields.push(extra)[0] == extra);
        assert(member(Seq::<(String, JsonValue)>::empty(), key) == None::<JsonValue>);
    }
}

/// A start record with a string `generation_id` and a boolean `is_finished` decodes to the
/// start event with those fields, whatever else the record holds.
pub proof fn lemma_start_decodes(fields: Vec<(String, JsonValue)>, id: String, done: bool)
    requires
        str_at(fields@, "event_type"@) matches Some(t) && t@ == "stream-start"@,
        str_at(fields@, "generation_id"@) == Some(id),
        bool_at(fields@, "is_finished"@) == Some(done),
    ensures
        event_of(JsonValue::Object(fields)) == Ok::<StreamEvent, DecodeError>(
            StreamEvent::Start { generation_id: id, is_finished: done },
        ),
{
}

/// A member that the decoder does not read leaves the decoded event as it was.
pub proof fn lemma_extra_member_ignored(
    fields: Vec<(String, JsonValue)>,
    more: Vec<(String, JsonValue)>,
    extra: (String, JsonValue),
)
    requires
        more@ == fields@.push(extra),
        extra.0@ != "event_type"@,
        extra.0@ != "generation_id"@,
        extra.0@ != "is_finished"@,
        extra.0@ != "text"@,
        extra.0@ != "finish_reason"@,
        extra.0@ != "response"@,
    ensures
        event_of(JsonValue::Object(more)) == event_of(JsonValue::Object(fields)),
{
    lemma_member_other_key(fields@, extra, "event_type"@);
    lemma_member_other_key(fields@, extra, "generation_id"@);
    lemma_member_other_key(fields@, extra, "is_finished"@);
    lemma_member_other_key(fields@, extra, "text"@);
    lemma_member_other_key(fields@, extra, "finish_reason"@);
    lemma_member_other_key(fields@, extra, "response"@);
}

/// A start record without a `generation_id` is malformed.
pub proof fn lemma_start_without_id(fields: Vec<(String, JsonValue)>)
    requires
        str_at(fields@, "event_type"@) matches Some(t) && t@ == "stream-start"@,
        member(fields@, "generation_id"@) == None::<JsonValue>,
    ensures
        event_of(JsonValue::Object(fields)) == Err::<StreamEvent, DecodeError>(DecodeError::Malformed),
{
}

/// A record whose `event_type` is a string that names none of the three events decodes to
/// the unknown-event error.
pub proof fn lemma_unknown_event_type(fields: Vec<(String, JsonValue)>, t: String)
    requires
        str_at(fields@, "event_type"@) == Some(t),
        t@ != "stream-start"@,
        t@ != "text-generation"@,
        t@ != "stream-end"@,
    ensures
        event_of(JsonValue::Object(fields)) == Err::<StreamEvent, DecodeError>(
            DecodeError::UnknownEventType,
        ),
{
}

/// Reads the closing reply out of a JSON value.
pub fn decode_response(v: &JsonValue) -> (r: Option<ChatResponse>)
    ensures
        r == response_of(*v),
{
    match v {
        JsonValue::Object(fs) => {
            let g = get_str(fs, "generation_id");
            let r = get_str(fs, "response_id");
            let t = get_str(fs, "text");
            match (g, r, t) {
                (Some(g), Some(r), Some(t)) => Some(ChatResponse { generation_id: g, response_id: r, text: t }),
                _ => None,
            }
        },
        _ => None,
    }
}

/// Decodes an already parsed record into its event.
pub fn decode_value(v: &JsonValue) -> (r: Result<StreamEvent, DecodeError>)
    ensures
        r == event_of(*v),
{
    let fs = match v {
        JsonValue::Object(fs) => fs,
        _ => return Err(DecodeError::Malformed),
    };
    let t = match get_str(fs, "event_type") {
        Some(t) => t,
        None => return Err(DecodeError::Malformed),
    };
    if t.eq(&"stream-start".to_owned()) {
        match (get_str(fs, "generation_id"), get_bool(fs, "is_finished")) {
            (Some(g), Some(f)) => Ok(StreamEvent::Start { generation_id: g, is_finished: f }),
            _ => Err(DecodeError::Malformed),
        }
    } else if t.eq(&"text-generation".to_owned()) {
        match (get_bool(fs, "is_finished"), get_str(fs, "text")) {
            (Some(f), Some(x)) => Ok(StreamEvent::TextGeneration { is_finished: f, text: x }),
            _ => Err(DecodeError::Malformed),
        }
    } else if t.eq(&"stream-end".to_owned()) {
        let reason = get_str(fs, "finish_reason");
        let f = get_bool(fs, "is_finished");
        let rv = find_member(fs, "response");
        match (reason, f, rv) {
            (Some(reason), Some(f), Some(i)) => match decode_response(&fs[i].1) {
                Some(resp) => Ok(StreamEvent::End { finish_reason: reason, is_finished: f, response: resp }),
                None => Err(DecodeError::Malformed),
            },
            _ => Err(DecodeError::Malformed),
        }
    } else {
        Err(DecodeError::UnknownEventType)
    }
}

/// Decodes one record, the bytes of one line of the stream without its separator.
pub fn decode(record: &[u8]) -> (r: Result<StreamEvent, DecodeError>)
    ensures
        r == decode_record(record@),
{
    if record.len() == 0 {
        return Err(DecodeError::Malformed);
    }
    match parse_json(record) {
        Some(v) => decode_value(&v),
        None => Err(DecodeError::Malformed),
    }
}

} // verus!
