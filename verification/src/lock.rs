//! Acquiring the lock: reading the service's answer and deciding what it means.

use crate::json::{parse_json, parsed_json, Json, JsonNumber};
use vstd::prelude::*;
use vstd::slice::slice_to_vec;

verus! {

/// Status code by which the service says that somebody else holds the lock.
pub const CODE_BUSY: u64 = 0;

/// Status code by which the service grants the lock.
pub const CODE_GRANTED: u64 = 1;

/// The `status` object of a lock response.
#[derive(Debug)]
pub struct Status {
    pub code: u64,
    pub description: String,
}

/// A lock response as the service sends it: a status, and with it
/// possibly a token (`hash`) and a validity in seconds (`maxtime`).
#[derive(Debug)]
pub struct LockResponseEnvelope {
    pub status: Status,
    pub hash: Option<String>,
    pub maxtime: Option<JsonNumber>,
}

/// The fields of a `LockResponseEnvelope` as mathematical values.
pub struct EnvelopeView {
    pub code: u64,
    pub description: Seq<char>,
    pub hash: Option<Seq<char>>,
    pub maxtime: Option<JsonNumber>,
}

impl View for LockResponseEnvelope {
    type V = EnvelopeView;

    open spec fn view(&self) -> EnvelopeView {
        EnvelopeView {
            code: self.status.code,
            description: self.status.description@,
            hash: match self.hash {
                Some(hash) => Some(hash@),
                None => None,
            },
            maxtime: self.maxtime,
        }
    }
}

/// The first thing that keeps a JSON document from being a lock response.
#[derive(Clone, Copy, Debug, PartialEq, Eq, Structural)]
pub enum EnvelopeFault {
    /// The document is not an object.
    NotAnObject,
    /// `hash` is there, but is neither a string nor null.
    Hash,
    /// `maxtime` is there, but is neither a number nor null.
    Maxtime,
    /// `status` is missing, or is not an object.
    Status,
    /// `status.code` is missing, or is not a whole number from 0 to 2^64 - 1.
    Code,
    /// `status.description` is missing, or is not a string.
    Description,
}

/// What `describe` says of each fault.
pub open spec fn fault_text(fault: EnvelopeFault) -> Seq<char> {
    match fault {
        EnvelopeFault::NotAnObject => "response is not a JSON object"@,
        EnvelopeFault::Hash => "field `hash` is neither a string nor null"@,
        EnvelopeFault::Maxtime => "field `maxtime` is neither a number nor null"@,
        EnvelopeFault::Status => "field `status` is missing or not an object"@,
        EnvelopeFault::Code => "field `status.code` is missing or not an unsigned integer"@,
        EnvelopeFault::Description => "field `status.description` is missing or not a string"@,
    }
}

impl EnvelopeFault {
    /// The fault in words.
    pub fn describe(&self) -> (text: String)
        ensures
            text@ == fault_text(*self),
    {
        match self {
            EnvelopeFault::NotAnObject => String::from_str("response is not a JSON object"),
            EnvelopeFault::Hash => String::from_str("field `hash` is neither a string nor null"),
            EnvelopeFault::Maxtime => String::from_str(
                "field `maxtime` is neither a number nor null",
            ),
            EnvelopeFault::Status => String::from_str("field `status` is missing or not an object"),
            EnvelopeFault::Code => String::from_str(
                "field `status.code` is missing or not an unsigned integer",
            ),
            EnvelopeFault::Description => String::from_str(
                "field `status.description` is missing or not a string",
            ),
        }
    }
}

/// The exclusive right to set the colours, as granted by the service.
///
/// A `Lock` comes only out of a granted lock response and cannot be changed.
#[derive(Debug)]
pub struct Lock {
    token: String,
    max_duration: Option<JsonNumber>,
}

/// The fields of a `Lock` as mathematical values.
pub struct LockView {
    pub token: Seq<char>,
    pub max_duration: Option<JsonNumber>,
}

impl View for Lock {
    type V = LockView;

    closed spec fn view(&self) -> LockView {
        LockView { token: self.token@, max_duration: self.max_duration }
    }
}

impl Lock {
    /// The token that the service issued, exactly as it came.
    pub fn token(&self) -> (token: &str)
        ensures
            token@ == self@.token,
    {
        self.token.as_str()
    }

    /// For how many seconds the service promised to honour the lock, where it
    /// said so. Advisory: nothing in this crate enforces it.
    pub fn max_duration(&self) -> (seconds: Option<JsonNumber>)
        ensures
            seconds == self@.max_duration,
    {
        self.max_duration
    }
}

/// Why no lock was obtained.
#[derive(Debug)]
pub enum LockError {
    /// Somebody else holds the lock. Trying again later is in order.
    Busy,
    /// The service broke its own protocol; the text says how.
    ProtocolViolation(String),
    /// The service answered with a status code that this client does not
    /// know. Carries the code and the response body.
    UnknownStatus(u64, Vec<u8>),
    /// The response body is not a lock response. Carries the body and what
    /// was found wrong with it.
    MalformedResponse(Vec<u8>, String),
    /// The request failed on the way; the text gives the cause.
    Transport(String),
    /// No response arrived in time.
    Timeout,
}

/// A `LockError` as a mathematical value.
pub enum LockErrorView {
    Busy,
    ProtocolViolation(Seq<char>),
    UnknownStatus(u64, Seq<u8>),
    MalformedResponse(Seq<u8>, Seq<char>),
    Transport(Seq<char>),
    Timeout,
}

impl View for LockError {
    type V = LockErrorView;

    open spec fn view(&self) -> LockErrorView {
        match self {
            LockError::Busy => LockErrorView::Busy,
            LockError::ProtocolViolation(text) => LockErrorView::ProtocolViolation(text@),
            LockError::UnknownStatus(code, body) => LockErrorView::UnknownStatus(*code, body@),
            LockError::MalformedResponse(body, detail) => LockErrorView::MalformedResponse(
                body@,
                detail@,
            ),
            LockError::Transport(cause) => LockErrorView::Transport(cause@),
            LockError::Timeout => LockErrorView::Timeout,
        }
    }
}

/// The outcome of a lock request as a mathematical value.
pub open spec fn outcome_view(outcome: Result<Lock, LockError>) -> Result<LockView, LockErrorView> {
    match outcome {
        Ok(lock) => Ok(lock@),
        Err(error) => Err(error@),
    }
}

/// The text carried by the protocol violation "granted, but no token".
pub open spec fn hash_missing_text() -> Seq<char> {
    "hash missing on success"@
}

/// What the status code of a lock response says.
#[derive(Clone, Copy, Debug, PartialEq, Eq, Structural)]
pub enum LockStatus {
    /// Somebody else holds the lock.
    Busy,
    /// The lock is granted.
    Granted,
    /// A code that this client does not know.
    Unknown(u64),
}

/// The status that a code stands for: 0 is `Busy`, 1 is `Granted`, and
/// every other code is unknown.
pub open spec fn status_of(code: u64) -> LockStatus {
    if code == CODE_BUSY {
        LockStatus::Busy
    } else if code == CODE_GRANTED {
        LockStatus::Granted
    } else {
        LockStatus::Unknown(code)
    }
}

impl LockStatus {
    /// The status that `code` stands for.
    pub fn from_code(code: u64) -> (status: LockStatus)
        ensures
            status == status_of(code),
    {
        if code == CODE_BUSY {
            LockStatus::Busy
        } else if code == CODE_GRANTED {
            LockStatus::Granted
        } else {
            LockStatus::Unknown(code)
        }
    }
}

/// What a lock response means, given the body it was read from. `Busy` is
/// reported as such. `Granted` gives the lock, with `hash` as its token and
/// `maxtime` as its validity; without a `hash` the service has broken the
/// protocol. An unknown code is reported with the body.
pub open spec fn lock_outcome(envelope: EnvelopeView, body: Seq<u8>) -> Result<
    LockView,
    LockErrorView,
> {
    match status_of(envelope.code) {
        LockStatus::Busy => Err(LockErrorView::Busy),
        LockStatus::Granted => match envelope.hash {
            Some(hash) => Ok(LockView { token: hash, max_duration: envelope.maxtime }),
            None => Err(LockErrorView::ProtocolViolation(hash_missing_text())),
        },
        LockStatus::Unknown(code) => Err(LockErrorView::UnknownStatus(code, body)),
    }
}

/// Decides what a lock response means. `body` is the response body that
/// `envelope` was read from; it goes into the error for an unknown status.
pub fn interpret_envelope(envelope: LockResponseEnvelope, body: &[u8]) -> (outcome: Result<
    Lock,
    LockError,
>)
    ensures
        outcome_view(outcome) == lock_outcome(envelope@, body@),
{
    let LockResponseEnvelope { status, hash, maxtime } = envelope;
    match LockStatus::from_code(status.code) {
        LockStatus::Busy => Err(LockError::Busy),
        LockStatus::Granted => match hash {
            Some(token) => Ok(Lock { token, max_duration: maxtime }),
            None => Err(LockError::ProtocolViolation(String::from_str("hash missing on success"))),
        },
        LockStatus::Unknown(code) => Err(LockError::UnknownStatus(code, slice_to_vec(body))),
    }
}

/// An optional string member: absent and `null` both count as not there.
/// The outer `None` stands for a value of any other kind.
pub open spec fn optional_text(member: Option<Json>) -> Option<Option<Seq<char>>> {
    match member {
        None => Some(None),
        Some(Json::Null) => Some(None),
        Some(Json::Text(text)) => Some(Some(text@)),
        Some(_) => None,
    }
}

/// An optional number member, read as `optional_text` reads a string.
pub open spec fn optional_number(member: Option<Json>) -> Option<Option<JsonNumber>> {
    match member {
        None => Some(None),
        Some(Json::Null) => Some(None),
        Some(Json::Number(number)) => Some(Some(number)),
        Some(_) => None,
    }
}

/// A member that has to be a whole number from 0 to 2^64 - 1.
pub open spec fn required_unsigned(member: Option<Json>) -> Option<u64> {
    match member {
        Some(Json::Number(number)) => number.unsigned,
        _ => None,
    }
}

/// A member that has to be a string.
pub open spec fn required_text(member: Option<Json>) -> Option<Seq<char>> {
    match member {
        Some(Json::Text(text)) => Some(text@),
        _ => None,
    }
}

/// The lock response that a JSON document holds, or the first fault found
/// in it. Looked at in this order: the document is an object; `hash` is a
/// string, null or absent; `maxtime` is a number, null or absent; `status`
/// is an object; `status.code` is an unsigned whole number;
/// `status.description` is a string. Other members are ignored.
pub open spec fn envelope_of(json: Json) -> Result<EnvelopeView, EnvelopeFault> {
    if !(json is Object) {
        Err(EnvelopeFault::NotAnObject)
    } else if optional_text(json.spec_member("hash"@)) is None {
        Err(EnvelopeFault::Hash)
    } else if optional_number(json.spec_member("maxtime"@)) is None {
        Err(EnvelopeFault::Maxtime)
    } else if !(json.spec_member("status"@) matches Some(Json::Object(_))) {
        Err(EnvelopeFault::Status)
    } else {
        let status = json.spec_member("status"@)->0;
        if required_unsigned(status.spec_member("code"@)) is None {
            Err(EnvelopeFault::Code)
        } else if required_text(status.spec_member("description"@)) is None {
            Err(EnvelopeFault::Description)
        } else {
            Ok(
                EnvelopeView {
                    code: required_unsigned(status.spec_member("code"@))->0,
                    description: required_text(status.spec_member("description"@))->0,
                    hash: optional_text(json.spec_member("hash"@))->0,
                    maxtime: optional_number(json.spec_member("maxtime"@))->0,
                },
            )
        }
    }
}

/// A lock response read from a JSON document, as a mathematical value.
pub open spec fn envelope_view(envelope: Result<LockResponseEnvelope, EnvelopeFault>) -> Result<
    EnvelopeView,
    EnvelopeFault,
> {
    match envelope {
        Ok(envelope) => Ok(envelope@),
        Err(fault) => Err(fault),
    }
}

/// Reads a lock response out of a JSON document.
pub fn envelope_from_json(json: &Json) -> (envelope: Result<LockResponseEnvelope, EnvelopeFault>)
    ensures
        envelope_view(envelope) == envelope_of(*json),
{
    match json {
        Json::Object(_) => {},
        _ => {
            return Err(EnvelopeFault::NotAnObject);
        },
    }
    let hash = match json.member("hash") {
        None => None,
        Some(Json::Null) => None,
        Some(Json::Text(text)) => Some(text.clone()),
        Some(_) => {
            return Err(EnvelopeFault::Hash);
        },
    };
    let maxtime = match json.member("maxtime") {
        None => None,
        Some(Json::Null) => None,
        Some(Json::Number(number)) => Some(*number),
        Some(_) => {
            return Err(EnvelopeFault::Maxtime);
        },
    };
    let status = match json.member("status") {
        Some(status) => status,
        None => {
            return Err(EnvelopeFault::Status);
        },
    };
    match status {
        Json::Object(_) => {},
        _ => {
            return Err(EnvelopeFault::Status);
        },
    }
    let code = match status.member("code") {
        Some(Json::Number(number)) => match number.unsigned {
            Some(code) => code,
            None => {
                return Err(EnvelopeFault::Code);
            },
        },
        _ => {
            return Err(EnvelopeFault::Code);
        },
    };
    let description = match status.member("description") {
        Some(Json::Text(text)) => text.clone(),
        _ => {
            return Err(EnvelopeFault::Description);
        },
    };
    Ok(LockResponseEnvelope { status: Status { code, description }, hash, maxtime })
}

/// A JSON document, or the text of the error met while reading it, as a
/// mathematical value.
pub open spec fn document_view(document: Result<Json, String>) -> Result<Json, Seq<char>> {
    match document {
        Ok(json) => Ok(json),
        Err(detail) => Err(detail@),
    }
}

/// What the body of a lock response means, given what came of reading it as
/// JSON. A body that is no JSON, or no lock response, is malformed: the error
/// carries the body and the reader's words, or those of `fault_text`. Any
/// other body means what `lock_outcome` says of the response in it.
pub open spec fn document_outcome(document: Result<Json, Seq<char>>, body: Seq<u8>) -> Result<
    LockView,
    LockErrorView,
> {
    match document {
        Err(detail) => Err(LockErrorView::MalformedResponse(body, detail)),
        Ok(json) => match envelope_of(json) {
            Err(fault) => Err(LockErrorView::MalformedResponse(body, fault_text(fault))),
            Ok(envelope) => lock_outcome(envelope, body),
        },
    }
}

/// Decides what the body of a lock response means, once it has been read as
/// JSON: `document` is what came of the reading.
pub fn lock_from_document(document: Result<Json, String>, body: &[u8]) -> (outcome: Result<
    Lock,
    LockError,
>)
    ensures
        outcome_view(outcome) == document_outcome(document_view(document), body@),
{
    match document {
        Err(detail) => Err(LockError::MalformedResponse(slice_to_vec(body), detail)),
        Ok(json) => match envelope_from_json(&json) {
            Err(fault) => Err(LockError::MalformedResponse(slice_to_vec(body), fault.describe())),
            Ok(envelope) => interpret_envelope(envelope, body),
        },
    }
}

/// A lock comes only from a response that grants it and names its token:
/// the document holds a lock response with code 1 and a `hash`, and that
/// `hash` is the token, unchanged. No other document gives a lock.
pub proof fn lemma_lock_only_when_granted(document: Result<Json, Seq<char>>, body: Seq<u8>)
    ensures
        document_outcome(document, body) is Ok <==> {
            &&& document matches Ok(json)
            &&& envelope_of(json) matches Ok(envelope)
            &&& envelope.code == CODE_GRANTED
            &&& envelope.hash is Some
        },
        document_outcome(document, body) matches Ok(lock) ==> {
            &&& document matches Ok(json)
            &&& envelope_of(json) matches Ok(envelope)
            &&& envelope.hash == Some(lock.token)
            &&& envelope.maxtime == lock.max_duration
        },
{
}

/// An error that carries a response body carries the body that was given,
/// byte for byte. `Busy` and a protocol violation carry none, and a
/// response is `Busy` exactly when its code is 0.
pub proof fn lemma_error_keeps_body(document: Result<Json, Seq<char>>, body: Seq<u8>)
    ensures
        match document_outcome(document, body) {
            Err(LockErrorView::MalformedResponse(kept, _)) => kept == body,
            Err(LockErrorView::UnknownStatus(code, kept)) => kept == body && code != CODE_BUSY
                && code != CODE_GRANTED,
            Err(LockErrorView::Busy) => document matches Ok(json) && envelope_of(json) matches Ok(
                envelope,
            ) && envelope.code == CODE_BUSY,
            Err(LockErrorView::ProtocolViolation(text)) => text == hash_missing_text(),
            Err(LockErrorView::Transport(_)) => false,
            Err(LockErrorView::Timeout) => false,
            Ok(_) => true,
        },
{
}

/// Reads the body of a lock response and decides what it means: the lock,
/// where the service granted it, and otherwise why there is none.
pub fn parse_lock_response(body: &[u8]) -> (outcome: Result<Lock, LockError>)
    ensures
        outcome_view(outcome) == document_outcome(parsed_json(body@), body@),
{
    lock_from_document(parse_json(body), body)
}

impl LockError {
    /// The error for a lock request that got no response: `Timeout` where
    /// the transport gave up waiting, `Transport` with the cause otherwise.
    pub fn from_transport(timed_out: bool, cause: String) -> (error: LockError)
        ensures
            error@ == if timed_out {
                LockErrorView::Timeout
            } else {
                LockErrorView::Transport(cause@)
            },
    {
        if timed_out {
            LockError::Timeout
        } else {
            LockError::Transport(cause)
        }
    }
}

} // verus!
