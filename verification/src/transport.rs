//! The exchange with the service, as data.
//!
//! The library does no input or output. It says what is to be posted
//! ([`HttpRequest`]) and what an answer means ([`interpret_reply`]); sending
//! the one and receiving the other is left to the caller.

use vstd::prelude::*;
use vstd::utf8::{decode_utf8, encode_utf8, valid_utf8};
use crate::constants::{
    API_KEY_HEADER, DEFAULT_USER_AGENT, LENS_CRUPLOAD_ENDPOINT, PROTOBUF_CONTENT_TYPE,
    REQUEST_TIMEOUT_SECS,
};
use crate::error::{outcome_of, LensError, LensErrorView};
use crate::extract::{extract_text, extracted, lemma_canonical_keeps_text};
use crate::message::{decoded, encoded, lemma_decode_encode, Message, WireModel};
use crate::proto::{LensOverlayServerResponse, LensOverlayServerResponseView};

verus! {

/// One header of a request.
#[derive(Clone, Debug, PartialEq, Eq)]
pub struct Header {
    pub name: String,
    pub value: String,
}

/// A request that is ready to be posted.
#[derive(Clone, Debug, PartialEq, Eq)]
pub struct HttpRequest {
    /// Where to post.
    pub url: String,
    /// The headers, in the order they are set.
    pub headers: Vec<Header>,
    /// The serialized request message.
    pub body: Vec<u8>,
    /// Seconds after which the attempt is given up.
    pub timeout_secs: u64,
}

/// Model of [`HttpRequest`].
pub ghost struct HttpRequestView {
    pub url: Seq<char>,
    pub headers: Seq<(Seq<char>, Seq<char>)>,
    pub body: Seq<u8>,
    pub timeout_secs: u64,
}

impl View for Header {
    type V = (Seq<char>, Seq<char>);

    open spec fn view(&self) -> Self::V {
        (self.name@, self.value@)
    }
}

impl View for HttpRequest {
    type V = HttpRequestView;

    open spec fn view(&self) -> Self::V {
        HttpRequestView {
            url: self.url@,
            headers: Seq::new(self.headers@.len(), |i: int| self.headers@[i]@),
            body: self.body@,
            timeout_secs: self.timeout_secs,
        }
    }
}

/// Whether a byte may stand in the value of a header: a tab, or anything
/// from the space upwards but the delete character.
pub open spec fn header_byte_allowed(byte: u8) -> bool {
    (byte >= 32 && byte != 127) || byte == 9
}

/// Whether a string can be the value of a header: every byte of its UTF-8
/// form is allowed.
pub open spec fn valid_header_value(value: Seq<char>) -> bool {
    forall|i: int|
        0 <= i < encode_utf8(value).len() ==> header_byte_allowed(
            #[trigger] encode_utf8(value)[i],
        )
}

/// The headers of a request that carries the given credential.
pub open spec fn request_headers(api_key: Seq<char>) -> Seq<(Seq<char>, Seq<char>)> {
    seq![
        ("Content-Type"@, PROTOBUF_CONTENT_TYPE@),
        ("User-Agent"@, DEFAULT_USER_AGENT@),
        (API_KEY_HEADER@, api_key),
    ]
}

/// The request that posts `body` under the given credential.
pub open spec fn post_of(api_key: Seq<char>, body: Seq<u8>) -> HttpRequestView {
    HttpRequestView {
        url: LENS_CRUPLOAD_ENDPOINT@,
        headers: request_headers(api_key),
        body,
        timeout_secs: REQUEST_TIMEOUT_SECS,
    }
}

/// Whether a status code lies in the success class, 200 to 299.
pub open spec fn status_is_success(status: u16) -> bool {
    200 <= status < 300
}

/// The text that stands for the body of a failed exchange. It is the text
/// that the bytes encode where they are UTF-8.
pub uninterp spec fn lossy_text(bytes: Seq<u8>) -> Seq<char>;

/// What an answer of the service means: the extracted text, or the error
/// that the answer amounts to.
pub open spec fn reply_outcome(status: u16, body: Seq<u8>) -> Result<Seq<char>, LensErrorView> {
    if !status_is_success(status) {
        Err(LensErrorView::Transport { status, body: lossy_text(body) })
    } else {
        match decoded::<LensOverlayServerResponseView>(body) {
            Some(response) => match extracted(response) {
                Some(text) => Ok(text),
                None => Err(LensErrorView::EmptyResult),
            },
            None => Err(LensErrorView::WireDecode),
        }
    }
}

/// Tells whether a string can be the value of a header.
///
/// Trusted: `reqwest::header::HeaderValue::from_str` goes through the bytes
/// of the string and accepts it exactly when each of them is a tab or is at
/// least 32 and not 127. That takes in the bytes from 128 up, and with them
/// every character beyond ASCII: the source decides here, whose own
/// description names a narrower range than it tests for.
#[verifier::external_body]
fn header_value_accepted(value: &str) -> (ok: bool)
    ensures
        ok == valid_header_value(value@),
{
    reqwest::header::HeaderValue::from_str(value).is_ok()
}

/// Turns the body of a failed exchange into text.
///
/// Trusted: `String::from_utf8_lossy` depends on the bytes alone
/// ([`lossy_text`] names its result) and, where they are UTF-8, yields the
/// text that they encode.
#[verifier::external_body]
fn text_of_body(body: &[u8]) -> (text: String)
    ensures
        text@ == lossy_text(body@),
        valid_utf8(body@) ==> text@ == decode_utf8(body@),
{
    String::from_utf8_lossy(body).into_owned()
}

/// The error that stands for an exchange that failed with the given status
/// and body.
pub fn failed_exchange(status: u16, body: &[u8]) -> (error: LensError)
    ensures
        error@ == (LensErrorView::Transport { status, body: lossy_text(body@) }),
        valid_utf8(body@) ==> error@ == (LensErrorView::Transport {
            status,
            body: decode_utf8(body@),
        }),
{
    LensError::Transport { status, body: text_of_body(body) }
}

/// Tells whether a status code lies in the success class.
pub fn is_success(status: u16) -> (ok: bool)
    ensures
        ok == status_is_success(status),
{
    200 <= status && status < 300
}

/// Makes a header.
fn header(name: &str, value: &str) -> (h: Header)
    ensures
        h@ == (name@, value@),
{
    Header { name: name.to_owned(), value: value.to_owned() }
}

/// The request that posts `body` under the credential `api_key`.
///
/// Fails with [`LensError::Config`] exactly where the credential cannot be
/// the value of a header.
pub fn post_request(api_key: &str, body: Vec<u8>) -> (r: Result<HttpRequest, LensError>)
    ensures
        match r {
            Ok(request) => valid_header_value(api_key@) && request@ == post_of(api_key@, body@),
            Err(e) => e is Config && !valid_header_value(api_key@),
        },
{
    if !header_value_accepted(api_key) {
        return Err(LensError::Config);
    }
    let mut headers: Vec<Header> = Vec::new();
    headers.push(header("Content-Type", PROTOBUF_CONTENT_TYPE));
    headers.push(header("User-Agent", DEFAULT_USER_AGENT));
    headers.push(header(API_KEY_HEADER, api_key));
    let request = HttpRequest {
        url: LENS_CRUPLOAD_ENDPOINT.to_owned(),
        headers,
        body,
        timeout_secs: REQUEST_TIMEOUT_SECS,
    };
    assert(request@.headers =~= request_headers(api_key@));
    Ok(request)
}

/// Says what an answer of the service means.
///
/// A status outside the success class gives [`LensError::Transport`] with
/// that status and the body as text, whatever the body holds: it is not read
/// as a message. Otherwise the body is decoded and the text extracted; a
/// body that is no well-formed message gives [`LensError::WireDecode`], one
/// without text [`LensError::EmptyResult`].
pub fn interpret_reply(status: u16, body: &[u8]) -> (r: Result<String, LensError>)
    ensures
        outcome_of(r) == reply_outcome(status, body@),
        !status_is_success(status) && valid_utf8(body@) ==> (r matches Err(
            LensError::Transport { status: s, body: b },
        ) && s == status && b@ == decode_utf8(body@)),
{
    if !is_success(status) {
        return Err(failed_exchange(status, body));
    }
    let response: LensOverlayServerResponse = match LensOverlayServerResponse::decode(body) {
        Ok(response) => response,
        Err(_) => {
            return Err(LensError::WireDecode);
        },
    };
    extract_text(response)
}

/// The answer that carries a response means what the response says: a
/// success whose body is the serialized form of a response yields the text
/// that is extracted from that response, or an empty result where it holds
/// none. This holds of every response, whatever members it lacks and
/// whatever its floats hold.
pub proof fn lemma_reply_of_encoded(status: u16, response: LensOverlayServerResponseView)
    requires
        status_is_success(status),
        encoded(response).len() <= u64::MAX,
    ensures
        decoded::<LensOverlayServerResponseView>(encoded(response)) == Some(
            response.canonical(),
        ),
        reply_outcome(status, encoded(response)) == match extracted(response) {
            Some(text) => Ok::<Seq<char>, LensErrorView>(text),
            None => Err(LensErrorView::EmptyResult),
        },
{
    lemma_decode_encode(response);
    lemma_canonical_keeps_text(response);
}

} // verus!
