//! Decoding of inbound text frames into server messages.
//!
//! A server message is a JSON object with a `"type"` member that holds
//! `"partial"` or `"final"` and a `"text"` member that holds a string. Other
//! members are ignored. Everything else is a parse error.

use vstd::prelude::*;
use crate::json::{find_member, json_object_members, member_text, parse_object};
use crate::wire::{ServerMsg, ServerMsgView, SessionError};

verus! {

/// The server message that an object with these members stands for.
pub open spec fn decode_members(members: Seq<(Seq<char>, Option<Seq<char>>)>) -> Result<
    ServerMsgView,
    SessionError,
> {
    match (member_text(members, "type"@), member_text(members, "text"@)) {
        (Some(Some(tag)), Some(Some(text))) => {
            if tag == "partial"@ {
                Ok(ServerMsgView::Partial { text })
            } else if tag == "final"@ {
                Ok(ServerMsgView::Final { text })
            } else {
                Err(SessionError::Parse)
            }
        },
        _ => Err(SessionError::Parse),
    }
}

/// The server message that an inbound text payload stands for.
pub open spec fn decode_text(text: Seq<char>) -> Result<ServerMsgView, SessionError> {
    match json_object_members(text) {
        Some(members) => decode_members(members),
        None => Err(SessionError::Parse),
    }
}

/// The mathematical view of a decoding result.
pub open spec fn decoded_view(r: Result<ServerMsg, SessionError>) -> Result<
    ServerMsgView,
    SessionError,
> {
    match r {
        Ok(msg) => Ok(msg@),
        Err(e) => Err(e),
    }
}

/// Builds the server message that the members of a parsed object stand for.
pub fn decode_server_msg(members: &Vec<(String, Option<String>)>) -> (r: Result<
    ServerMsg,
    SessionError,
>)
    ensures
        decoded_view(r) == decode_members(members.deep_view()),
{
    let tag = match find_member(members, "type") {
        Some(Some(tag)) => tag,
        _ => {
            return Err(SessionError::Parse);
        },
    };
    let text = match find_member(members, "text") {
        Some(Some(text)) => text,
        _ => {
            return Err(SessionError::Parse);
        },
    };
    let partial = String::from_str("partial");
    let settled = String::from_str("final");
    if *tag == partial {
        Ok(ServerMsg::Partial { text: text.clone() })
    } else if *tag == settled {
        Ok(ServerMsg::Final { text: text.clone() })
    } else {
        Err(SessionError::Parse)
    }
}

/// Decodes one inbound text payload.
///
/// Returns the message where the payload is a JSON object of the expected
/// shape, and `Err(SessionError::Parse)` otherwise.
pub fn parse_server_msg(text: &str) -> (r: Result<ServerMsg, SessionError>)
    ensures
        decoded_view(r) == decode_text(text@),
{
    match parse_object(text) {
        Ok(members) => decode_server_msg(&members),
        Err(_) => Err(SessionError::Parse),
    }
}

} // verus!
