//! Decoding of the response envelope.

use vstd::prelude::*;
use crate::json::{self, Json, Member};
use crate::text;

verus! {

/// The response code of an envelope: an integer of at most 32 bits.
pub open spec fn code_of(ms: Seq<Member>) -> Option<int> {
    match json::lookup(ms, "code"@) {
        Some(j) => match *j {
            Json::Number(n) => match n.integer {
                Some(i) => if i32::MIN <= i <= i32::MAX {
                    Some(i as int)
                } else {
                    None
                },
                None => None,
            },
            _ => None,
        },
        None => None,
    }
}

/// What the JSON library says of a response, beside its values.
#[derive(Debug, Clone, Copy)]
pub struct EnvelopeText<'a> {
    /// Why the response is no envelope, where its code cannot be read.
    pub decode_error: &'a str,
    /// The member `msg` as JSON writes it.
    pub message: &'a str,
}

/// What an envelope says of a failure: its message, or how JSON writes a message that is no
/// text or a blank one.
pub open spec fn message_of(v: Option<&Json>, written: Seq<char>) -> Seq<char> {
    match v {
        None => "unknown provider error"@,
        Some(j) => match *j {
            Json::Null => "unknown provider error"@,
            Json::Text(t) => if text::blank(t.text@) {
                written
            } else {
                text::trimmed(t.text@)
            },
            _ => written,
        },
    }
}

/// Why an envelope is refused, if it is.
pub open spec fn envelope_fault(body: Json, words: EnvelopeText) -> Option<Seq<char>> {
    match body {
        Json::Object(ms) => match code_of(ms@) {
            None => Some(
                text::in_context("failed to decode NMC response envelope"@, words.decode_error@),
            ),
            Some(code) => if code != 0 {
                Some(
                    "NMC weather API returned code "@ + text::signed_numeral(code) + ": "@
                        + message_of(json::lookup(ms@, "msg"@), words.message@),
                )
            } else {
                match json::lookup(ms@, "data"@) {
                    None => Some("NMC weather API returned success with null data"@),
                    Some(data) => match *data {
                        Json::Null => Some("NMC weather API returned success with null data"@),
                        Json::Object(_) => None,
                        _ => Some(
                            "NMC weather API returned success without a weather data object"@,
                        ),
                    },
                }
            },
        },
        _ => Some("NMC response envelope must be an object"@),
    }
}

/// The members of the data of a response that has data.
pub open spec fn data_of(body: Json) -> Option<Seq<Member>> {
    match body {
        Json::Object(ms) => match json::lookup(ms@, "data"@) {
            Some(data) => match *data {
                Json::Object(members) => Some(members@),
                _ => None,
            },
            None => None,
        },
        _ => None,
    }
}

fn envelope_message(v: Option<&Json>, written: &str) -> (r: String)
    ensures
        r@ == message_of(v, written@),
{
    match v {
        None => "unknown provider error".to_owned(),
        Some(j) => match j {
            Json::Null => "unknown provider error".to_owned(),
            Json::Text(t) => {
                let message = text::trim(t.text.as_str());
                if message.is_empty() {
                    written.to_owned()
                } else {
                    message.to_owned()
                }
            },
            _ => written.to_owned(),
        },
    }
}

fn envelope_code(ms: &Vec<Member>) -> (r: Option<i64>)
    ensures
        match r {
            Some(i) => code_of(ms@) == Some(i as int),
            None => code_of(ms@) is None,
        },
{
    match json::get(ms, "code") {
        Some(j) => match j {
            Json::Number(n) => match n.integer {
                Some(i) => if -2_147_483_648 <= i && i <= 2_147_483_647 {
                    Some(i)
                } else {
                    None
                },
                None => None,
            },
            _ => None,
        },
        None => None,
    }
}

/// Opens a response: the members of its data, or why it is refused. A failure
/// code is reported before the data is looked at.
pub fn decode_weather_response<'a>(body: &'a Json, words: EnvelopeText<'_>) -> (r: Result<
    &'a Vec<Member>,
    String,
>)
    ensures
        match r {
            Ok(data) => {
                &&& envelope_fault(*body, words) is None
                &&& data_of(*body) == Some(data@)
            },
            Err(m) => envelope_fault(*body, words) == Some(m@),
        },
{
    let ms = match body {
        Json::Object(ms) => ms,
        _ => {
            return Err("NMC response envelope must be an object".to_owned());
        },
    };
    let code: i64 = match envelope_code(ms) {
        Some(code) => code,
        None => {
            return Err(
                text::with_context("failed to decode NMC response envelope", words.decode_error),
            );
        },
    };
    if code != 0 {
        let mut message = "NMC weather API returned code ".to_owned();
        message.append(text::signed_decimal(code).as_str());
        message.append(": ");
        message.append(envelope_message(json::get(ms, "msg"), words.message).as_str());
        return Err(message);
    }
    match json::get(ms, "data") {
        None => Err("NMC weather API returned success with null data".to_owned()),
        Some(data) => match data {
            Json::Null => Err("NMC weather API returned success with null data".to_owned()),
            Json::Object(members) => Ok(members),
            _ => Err(
                "NMC weather API returned success without a weather data object".to_owned(),
            ),
        },
    }
}

/// A response whose code is not zero is refused for its code, whatever its data is.
pub proof fn failure_code_comes_first(body: Json, ms: Vec<Member>, words: EnvelopeText)
    requires
        body == Json::Object(ms),
        code_of(ms@) is Some,
        code_of(ms@)->0 != 0,
    ensures
        envelope_fault(body, words) == Some(
            "NMC weather API returned code "@ + text::signed_numeral(code_of(ms@)->0) + ": "@
                + message_of(json::lookup(ms@, "msg"@), words.message@),
        ),
{
}

/// A response is opened exactly where it is an object with the code zero and data that is an
/// object: then its data is what is opened.
pub proof fn successful_responses_are_opened(body: Json, ms: Vec<Member>, words: EnvelopeText)
    ensures
        !(body is Object) ==> envelope_fault(body, words) is Some,
        envelope_fault(Json::Object(ms), words) is None <==> {
            &&& json::lookup(ms@, "code"@) matches Some(j) && (*j matches Json::Number(n)
                && n.integer == Some(0i64))
            &&& json::lookup(ms@, "data"@) matches Some(d) && *d is Object
        },
        json::lookup(ms@, "data"@) matches Some(d) ==> (*d matches Json::Object(data) ==> data_of(
            Json::Object(ms),
        ) == Some(data@)),
{
}

/// A failure is told with its message without the white space around it. Where there is none
/// it is unknown, and what is no text is told as it is written.
pub proof fn failures_are_told_with_their_message(t: json::TextValue, v: Json, written: Seq<char>)
    ensures
        message_of(None, written) == "unknown provider error"@,
        message_of(Some(&Json::Null), written) == "unknown provider error"@,
        !text::blank(t.text@) ==> message_of(Some(&Json::Text(t)), written) == text::trimmed(
            t.text@,
        ),
        text::blank(t.text@) ==> message_of(Some(&Json::Text(t)), written) == written,
        !(v is Null) && !(v is Text) ==> message_of(Some(&v), written) == written,
{
}

/// A code is an integer of 32 bits; any other is none.
pub proof fn codes_are_integers(ms: Seq<Member>, n: json::NumberValue, i: i64)
    requires
        json::lookup(ms, "code"@) == Some(&Json::Number(n)),
    ensures
        n.integer == Some(i) && -2_147_483_648 <= i <= 2_147_483_647 ==> code_of(ms) == Some(
            i as int,
        ),
        n.integer == Some(i) && !(-2_147_483_648 <= i <= 2_147_483_647) ==> code_of(ms) is None,
        n.integer is None ==> code_of(ms) is None,
{
}

/// A response that is not opened is told why.
pub proof fn refused_responses_are_told(body: Json, ms: Vec<Member>, words: EnvelopeText)
    ensures
        !(body is Object) ==> envelope_fault(body, words) == Some(
            "NMC response envelope must be an object"@,
        ),
        code_of(ms@) is None ==> envelope_fault(Json::Object(ms), words) == Some(
            "failed to decode NMC response envelope"@ + ": "@ + words.decode_error@,
        ),
        code_of(ms@) == Some(0int) && (json::lookup(ms@, "data"@) is None || *json::lookup(
            ms@,
            "data"@,
        ).unwrap() is Null) ==> envelope_fault(Json::Object(ms), words) == Some(
            "NMC weather API returned success with null data"@,
        ),
        code_of(ms@) == Some(0int) && json::lookup(ms@, "data"@) is Some && !(*json::lookup(
            ms@,
            "data"@,
        ).unwrap() is Null) && !(*json::lookup(ms@, "data"@).unwrap() is Object)
            ==> envelope_fault(Json::Object(ms), words) == Some(
            "NMC weather API returned success without a weather data object"@,
        ),
{
}

} // verus!
