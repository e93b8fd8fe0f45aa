//! Replies of HTTP services.
use crate::json::{Json, JsonView, json_of_bytes};
use vstd::prelude::*;
use vstd::string::*;

verus! {

/// A reply as it came in: its status and its body, or why the body could not be read.
#[derive(Debug)]
pub struct HttpReply {
    /// The status code.
    pub code: u16,
    /// The status in words, such as `404 Not Found`.
    pub status: String,
    /// The bytes of the body.
    pub body: Result<Vec<u8>, String>,
}

/// A reply whose body has been read as JSON.
#[derive(Debug)]
pub struct JsonReply {
    /// The status code.
    pub code: u16,
    /// The status in words, such as `404 Not Found`.
    pub status: String,
    /// The value of the body, or why there is none.
    pub body: Result<Json, String>,
}

/// The model of [`JsonReply`].
pub struct ReplyView {
    pub code: u16,
    pub status: Seq<char>,
    pub body: Result<JsonView, Seq<char>>,
}

impl View for JsonReply {
    type V = ReplyView;

    open spec fn view(&self) -> ReplyView {
        ReplyView {
            code: self.code,
            status: self.status@,
            body: match self.body {
                Ok(j) => Ok(j@),
                Err(e) => Err(e@),
            },
        }
    }
}

/// The complaint about a body that is no JSON.
pub open spec fn undecodable() -> Seq<char> {
    "error decoding response body"@
}

/// A reply with its body read as JSON.
pub open spec fn decoded(reply: HttpReply) -> ReplyView {
    ReplyView {
        code: reply.code,
        status: reply.status@,
        body: match reply.body {
            Ok(data) => match json_of_bytes(data@) {
                Some(j) => Ok(j),
                None => Err(undecodable()),
            },
            Err(e) => Err(e@),
        },
    }
}

/// A request that got a reply with its body read as JSON, or why it got none.
pub open spec fn fetched(reply: Result<HttpReply, String>) -> Result<ReplyView, Seq<char>> {
    match reply {
        Ok(r) => Ok(decoded(r)),
        Err(e) => Err(e@),
    }
}

/// The model of a request that got a reply or none.
pub open spec fn fetch_view(reply: Result<JsonReply, String>) -> Result<ReplyView, Seq<char>> {
    match reply {
        Ok(r) => Ok(r@),
        Err(e) => Err(e@),
    }
}

/// The status codes of success.
pub open spec fn success_code(code: u16) -> bool {
    200 <= code < 300
}

/// Whether a status code says success.
pub fn is_success(code: u16) -> (res: bool)
    ensures
        res == success_code(code),
{
    200 <= code && code < 300
}

/// Reads the body of a reply as JSON.
pub fn decode(reply: HttpReply) -> (res: JsonReply)
    ensures
        res@ == decoded(reply),
{
    let body = match reply.body {
        Ok(data) => match Json::parse_bytes(&data) {
            Some(j) => Ok(j),
            None => Err("error decoding response body".to_owned()),
        },
        Err(e) => Err(e),
    };
    JsonReply { code: reply.code, status: reply.status, body }
}

/// Reads the body of a reply, where there is one, as JSON.
pub fn decode_fetch(reply: Result<HttpReply, String>) -> (res: Result<JsonReply, String>)
    ensures
        fetch_view(res) == fetched(reply),
{
    match reply {
        Ok(r) => Ok(decode(r)),
        Err(e) => Err(e),
    }
}

/// The value of an `Authorization` header that presents a token.
pub fn bearer(token: &str) -> (res: String)
    ensures
        res@ == "Bearer "@ + token@,
{
    "Bearer ".to_owned().concat(token)
}

/// The status codes of success are those of the two hundreds.
pub proof fn law_success_is_two_hundred(code: u16)
    ensures
        success_code(code) <==> code / 100 == 2,
{
}

/// A reply whose body is read keeps its status. Its body is the value that the bytes denote, and where
/// they denote none, or there are none, there is an error: the one that came, or that the body cannot
/// be decoded. A request without a reply keeps its reason.
pub proof fn law_reading_keeps_the_reply(reply: HttpReply, reason: String)
    ensures
        fetched(Ok(reply)) matches Ok(r) && {
            &&& r.code == reply.code
            &&& r.status == reply.status@
            &&& reply.body matches Ok(data) ==> match json_of_bytes(data@) {
                Some(j) => r.body == Ok::<JsonView, Seq<char>>(j),
                None => r.body == Err::<JsonView, Seq<char>>("error decoding response body"@),
            }
            &&& reply.body matches Err(e) ==> r.body == Err::<JsonView, Seq<char>>(e@)
        },
        fetched(Err(reason)) == Err::<ReplyView, Seq<char>>(reason@),
{
}

} // verus!
