//! The connection handler: what to answer to the bytes of one read.

use crate::config::ServerConfig;
use vstd::prelude::*;
use vstd::string::*;
use vstd::utf8::*;

verus! {

/// The size of the buffer for the one read that the handler makes on a
/// connection.
pub const REQUEST_CAPACITY: usize = 1024;

/// The error of `core::str::from_utf8`, which the handler looks no further into.
#[verifier::external_type_specification]
#[verifier::external_body]
pub struct ExUtf8Error(core::str::Utf8Error);

/// `core::str::from_utf8` succeeds exactly on well-formed UTF-8, and the
/// string slice it hands out consists of the bytes it was given.
pub assume_specification[ core::str::from_utf8 ](v: &[u8]) -> (text: Result<
    &str,
    core::str::Utf8Error,
>)
    ensures
        text is Ok <==> valid_utf8(v@),
        text matches Ok(s) ==> s.spec_bytes() == v@,
;

/// The bytes of the response: the status line `HTTP/1.1 200 OK`, no header
/// and no body, that is the line and a blank line, each ended by CR LF.
pub open spec fn response_bytes() -> Seq<u8> {
    seq![
        0x48u8, 0x54, 0x54, 0x50, 0x2f, 0x31, 0x2e, 0x31, 0x20,
        0x32, 0x30, 0x30, 0x20,
        0x4f, 0x4b,
        0x0d, 0x0a, 0x0d, 0x0a,
    ]
}

/// What the handler does with a connection.
#[derive(Debug, PartialEq, Eq)]
pub enum Reply {
    /// Nothing is written: the peer closed without sending a byte.
    Silent,
    /// The request is logged and the response is written and flushed.
    Respond { request: String, response: Vec<u8> },
}

/// The mathematical value of a [`Reply`].
pub enum ReplyModel {
    Silent,
    Respond { request: Seq<char>, response: Seq<u8> },
}

impl View for Reply {
    type V = ReplyModel;

    open spec fn view(&self) -> ReplyModel {
        match self {
            Reply::Silent => ReplyModel::Silent,
            Reply::Respond { request, response } => ReplyModel::Respond {
                request: request@,
                response: response@,
            },
        }
    }
}

/// Why a connection could not be handled.
#[derive(Clone, Copy, Debug, PartialEq, Eq, Structural)]
pub enum RequestError {
    /// The bytes received are not UTF-8 text.
    NotText,
}

/// The reply that the bytes of one read call for.
pub open spec fn reply_of(received: Seq<u8>) -> Result<ReplyModel, RequestError> {
    if received.len() == 0 {
        Ok(ReplyModel::Silent)
    } else if valid_utf8(received) {
        Ok(ReplyModel::Respond { request: decode_utf8(received), response: response_bytes() })
    } else {
        Err(RequestError::NotText)
    }
}

/// The response, ready to be written.
pub fn response() -> (bytes: Vec<u8>)
    ensures
        bytes@ == response_bytes(),
{
    let text = "HTTP/1.1 200 OK\r\n\r\n";
    proof {
        reveal_strlit("HTTP/1.1 200 OK\r\n\r\n");
        assert(is_ascii(text));
        is_ascii_spec_bytes(text);
    }
    let bytes = text.as_bytes_vec();
    assert(bytes@ =~= response_bytes());
    bytes
}

/// Decides what to do with a connection from the bytes of the one read made
/// on it. `received` holds the bytes that were read, at most
/// [`REQUEST_CAPACITY`] of them.
///
/// The configuration of the server that accepted the connection is at hand
/// and plays no part in the decision.
pub fn handle_client(received: &[u8], _config: &ServerConfig) -> (outcome: Result<
    Reply,
    RequestError,
>)
    ensures
        match outcome {
            Ok(reply) => reply_of(received@) == Ok::<ReplyModel, RequestError>(reply@),
            Err(error) => reply_of(received@) == Err::<ReplyModel, RequestError>(error),
        },
{
    if received.len() == 0 {
        return Ok(Reply::Silent);
    }
    match core::str::from_utf8(received) {
        Ok(text) => {
            proof {
                encode_utf8_decode_utf8(text@);
            }
            Ok(Reply::Respond { request: String::from_str(text), response: response() })
        },
        Err(_) => Err(RequestError::NotText),
    }
}

/// Every request of one byte or more that is text gets the same response,
/// whatever it says, and an empty read gets none.
pub proof fn lemma_response_is_fixed(received: Seq<u8>)
    ensures
        received.len() == 0 ==> reply_of(received) == Ok::<ReplyModel, RequestError>(
            ReplyModel::Silent,
        ),
        received.len() > 0 && valid_utf8(received) ==> (reply_of(received) matches Ok(
            ReplyModel::Respond { response, .. },
        ) && response == response_bytes()),
        response_bytes().len() == 19,
{
}

/// A request that is text is logged as the text it is: decoding it loses
/// nothing, for encoding the text again gives the bytes received.
pub proof fn lemma_request_is_logged_whole(received: Seq<u8>)
    requires
        received.len() > 0,
        valid_utf8(received),
    ensures
        reply_of(received) matches Ok(ReplyModel::Respond { request, .. }) && encode_utf8(request)
            == received,
{
    decode_utf8_encode_utf8(received);
}

} // verus!
