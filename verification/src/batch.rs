//! The batch path: one upload of a complete recording, one transcript back.
//!
//! This module plans the request and reads the reply. Sending the request is
//! left to the embedding code.

use vstd::prelude::*;
use crate::json::{find_member, json_object_members, member_text, parse_object};

verus! {

/// How long the upload may take, in seconds.
pub const UPLOAD_TIMEOUT_SECS: u64 = 120;

/// Where and how to reach a remote model.
#[derive(Debug, Clone, PartialEq, Eq)]
pub struct RemoteModelConfig {
    pub model_name: String,
    pub api_url: String,
    pub api_key: Option<String>,
}

/// Everything the single request of the batch path consists of.
#[derive(Debug, Clone, PartialEq, Eq)]
pub struct UploadRequest {
    /// The address to post to.
    pub url: String,
    /// The value of the `Authorization` header, if one is sent.
    pub authorization: Option<String>,
    /// The limit on the whole exchange, in seconds.
    pub timeout_secs: u64,
    /// The name of the file part.
    pub file_name: String,
    /// The media type of the file part.
    pub mime: String,
    /// The content of the file part.
    pub wav: Vec<u8>,
    /// The text parts, each with its name and value, in order.
    pub fields: Vec<(String, String)>,
}

/// Why the batch path gave no transcript.
#[derive(Debug, Clone, PartialEq, Eq)]
pub enum RemoteError {
    /// The service answered with a status outside 200..=299; `body` is what it
    /// sent along.
    Status { status: u16, body: String },
    /// The service answered with success, but the body holds no transcript.
    Malformed,
}

/// `s` without the slashes at its end.
pub open spec fn trim_trailing_slashes(s: Seq<char>) -> Seq<char>
    decreases s.len(),
{
    if s.len() > 0 && s.last() == '/' {
        trim_trailing_slashes(s.drop_last())
    } else {
        s
    }
}

/// The address of the transcription endpoint under a base address.
pub open spec fn endpoint_of(api_url: Seq<char>) -> Seq<char> {
    trim_trailing_slashes(api_url) + "/audio/transcriptions"@
}

/// The language to ask for: none where the hint is missing or `auto`.
pub open spec fn language_field(hint: Option<Seq<char>>) -> Option<Seq<char>> {
    match hint {
        Some(l) => if l == "auto"@ {
            None
        } else {
            Some(l)
        },
        None => None,
    }
}

/// The text parts of the upload.
pub open spec fn upload_fields(model: Seq<char>, hint: Option<Seq<char>>) -> Seq<
    (Seq<char>, Seq<char>),
> {
    let fixed = seq![
        ("model"@, model),
        ("response_format"@, "json"@),
        ("temperature"@, "0.0"@),
    ];
    match language_field(hint) {
        Some(l) => fixed.push(("language"@, l)),
        None => fixed,
    }
}

/// The value of the `Authorization` header for a credential.
pub open spec fn bearer(api_key: Option<Seq<char>>) -> Option<Seq<char>> {
    match api_key {
        Some(key) => Some("Bearer "@ + key),
        None => None,
    }
}

/// Builds the address of the transcription endpoint: the base address
/// without trailing slashes, followed by `/audio/transcriptions`.
pub fn endpoint_url(api_url: &str) -> (r: String)
    ensures
        r@ == endpoint_of(api_url@),
{
    let mut n = api_url.unicode_len();
    assert(api_url@.subrange(0, n as int) == api_url@);
    loop
        invariant
            n <= api_url@.len(),
            trim_trailing_slashes(api_url@) == trim_trailing_slashes(
                api_url@.subrange(0, n as int),
            ),
        ensures
            n <= api_url@.len(),
            trim_trailing_slashes(api_url@) == api_url@.subrange(0, n as int),
        decreases n,
    {
        if n == 0 {
            break ;
        }
        let ghost prefix = api_url@.subrange(0, n as int);
        assert(prefix.last() == api_url@[n - 1]);
        if api_url.get_char(n - 1) != '/' {
            break ;
        }
        assert(prefix.drop_last() == api_url@.subrange(0, n - 1));
        n -= 1;
    }
    let mut url = String::from_str(api_url.substring_char(0, n));
    url.append("/audio/transcriptions");
    url
}

/// Plans the upload of one recording.
///
/// The recording goes as the file part `audio.wav` of type `audio/wav`. The
/// text parts are the model, the response format `json`, the temperature
/// `0.0` and, unless the hint is missing or `auto`, the language. A credential
/// is sent as a bearer token.
pub fn plan_upload(wav: Vec<u8>, config: &RemoteModelConfig, language: Option<String>) -> (r:
    UploadRequest)
    ensures
        r.url@ == endpoint_of(config.api_url@),
        r.authorization.deep_view() == bearer(config.api_key.deep_view()),
        r.timeout_secs == UPLOAD_TIMEOUT_SECS,
        r.file_name@ == "audio.wav"@,
        r.mime@ == "audio/wav"@,
        r.wav@ == wav@,
        r.fields.deep_view() == upload_fields(config.model_name@, language.deep_view()),
{
    let mut fields: Vec<(String, String)> = Vec::new();
    fields.push((String::from_str("model"), config.model_name.clone()));
    fields.push((String::from_str("response_format"), String::from_str("json")));
    fields.push((String::from_str("temperature"), String::from_str("0.0")));
    if let Some(l) = language {
        let auto = String::from_str("auto");
        if l != auto {
            fields.push((String::from_str("language"), l));
        }
    }
    let authorization = match &config.api_key {
        Some(key) => {
            let mut value = String::from_str("Bearer ");
            value.append(key.as_str());
            Some(value)
        },
        None => None,
    };
    assert(fields.deep_view() =~= upload_fields(config.model_name@, language.deep_view()));
    UploadRequest {
        url: endpoint_url(config.api_url.as_str()),
        authorization,
        timeout_secs: UPLOAD_TIMEOUT_SECS,
        file_name: String::from_str("audio.wav"),
        mime: String::from_str("audio/wav"),
        wav,
        fields,
    }
}

/// Whether a status code reports success.
pub open spec fn is_success(status: u16) -> bool {
    200 <= status <= 299
}

/// The transcript that an object with these members holds: the string of its
/// `text` member.
pub open spec fn transcript_of(members: Seq<(Seq<char>, Option<Seq<char>>)>) -> Option<
    Seq<char>,
> {
    match member_text(members, "text"@) {
        Some(Some(text)) => Some(text),
        _ => None,
    }
}

/// The transcript that a reply body holds.
pub open spec fn transcript_in(body: Seq<char>) -> Option<Seq<char>> {
    match json_object_members(body) {
        Some(members) => transcript_of(members),
        None => None,
    }
}

/// Picks the transcript out of the members of a parsed reply.
pub fn transcript_from_members(members: &Vec<(String, Option<String>)>) -> (r: Option<String>)
    ensures
        r.deep_view() == transcript_of(members.deep_view()),
{
    match find_member(members, "text") {
        Some(Some(text)) => Some(text.clone()),
        _ => None,
    }
}

/// Reads the reply to the upload.
///
/// A status outside 200..=299 is an error that carries the status and the
/// body. Otherwise the body must be a JSON object whose `text` member holds
/// the transcript.
pub fn read_reply(status: u16, body: &str) -> (r: Result<String, RemoteError>)
    ensures
        match r {
            Ok(text) => is_success(status) && transcript_in(body@) == Some(text@),
            Err(RemoteError::Status { status: code, body: sent }) => !is_success(status) && code
                == status && sent@ == body@,
            Err(RemoteError::Malformed) => is_success(status) && transcript_in(body@) is None,
        },
{
    if status < 200 || status > 299 {
        return Err(RemoteError::Status { status, body: String::from_str(body) });
    }
    match parse_object(body) {
        Ok(members) => match transcript_from_members(&members) {
            Some(text) => Ok(text),
            None => Err(RemoteError::Malformed),
        },
        Err(_) => Err(RemoteError::Malformed),
    }
}

} // verus!
