//! The decisions of a connection's strict request/response exchange: framing
//! lines, checking that what arrives is of the awaited kind, and checking
//! that a request and a response are paired before anything is sent. The
//! reading and writing themselves are done by the caller.
use vstd::prelude::*;
use vstd::string::*;

use crate::protocol::{
    decode_request, decode_response, encode_request, encode_response, response_kind, Request,
    RequestParseError, RequestType, Response, ResponseParseError,
};

verus! {

/// What can go wrong in an exchange.
#[derive(Clone, Debug, PartialEq)]
pub enum ServerError {
    /// A request arrived, but not of the awaited kind.
    ExpectedRequestType(RequestType),
    /// A response arrived, but not of the awaited kind.
    ExpectedResponseType(RequestType),
    /// The line that arrived is not a request.
    RequestError(RequestParseError),
    /// The line that arrived is not a response.
    ResponseError(ResponseParseError),
    /// A request was paired with a response of another kind: the request's
    /// kind, then the response's.
    MismatchedRequestTypes(RequestType, RequestType),
    /// Reading or writing failed; the text says how.
    IoError(String),
}

/// `s` without one trailing `\n` or `\r\n`.
pub open spec fn strip_newline(s: Seq<char>) -> Seq<char> {
    if s.len() > 0 && s.last() == '\n' {
        let t = s.drop_last();
        if t.len() > 0 && t.last() == '\r' {
            t.drop_last()
        } else {
            t
        }
    } else {
        s
    }
}

/// The line without its line ending.
pub fn trim_newline(line: &str) -> (r: &str)
    ensures
        r@ == strip_newline(line@),
{
    let n = line.unicode_len();
    if n > 0 && line.get_char(n - 1) == '\n' {
        if n > 1 && line.get_char(n - 2) == '\r' {
            let r = line.substring_char(0, n - 2);
            assert(r@ =~= line@.drop_last().drop_last());
            r
        } else {
            let r = line.substring_char(0, n - 1);
            assert(r@ =~= line@.drop_last());
            r
        }
    } else {
        line
    }
}

/// Removes one trailing `\n` or `\r\n`.
pub fn remove_newline(s: &mut String)
    ensures
        final(s)@ == strip_newline(old(s)@),
{
    let trimmed = String::from_str(trim_newline(s.as_str()));
    *s = trimmed;
}

/// The request as it goes on the wire: its line and a newline.
pub fn frame_request(request: &Request) -> (r: String)
    ensures
        r@ == encode_request(request@).push('\n'),
{
    let mut line = request.to_string();
    line.append("\n");
    proof {
        reveal_strlit("\n");
    }
    assert(line@ =~= encode_request(request@).push('\n'));
    line
}

/// The response as it goes on the wire: its line and a newline.
pub fn frame_response(response: &Response) -> (r: String)
    ensures
        r@ == encode_response(response@).push('\n'),
{
    let mut line = response.to_string();
    line.append("\n");
    proof {
        reveal_strlit("\n");
    }
    assert(line@ =~= encode_response(response@).push('\n'));
    line
}

/// Reads a received line as a request of the awaited kind.
pub fn receive_request(expected: RequestType, line: &str) -> (r: Result<Request, ServerError>)
    ensures
        match decode_request(strip_newline(line@)) {
            Err(e) => r == Err::<Request, ServerError>(ServerError::RequestError(e)),
            Ok(t) => if t == expected {
                r is Ok && r->Ok_0@ == t
            } else {
                r == Err::<Request, ServerError>(ServerError::ExpectedRequestType(expected))
            },
        },
{
    match Request::parse(trim_newline(line)) {
        Ok(request) => {
            if *request.request_type() == expected {
                Ok(request)
            } else {
                Err(ServerError::ExpectedRequestType(expected))
            }
        },
        Err(e) => Err(ServerError::RequestError(e)),
    }
}

/// Reads a received line as a response of the awaited kind.
pub fn receive_response(expected: RequestType, line: &str) -> (r: Result<Response, ServerError>)
    ensures
        match decode_response(strip_newline(line@)) {
            Err(e) => r == Err::<Response, ServerError>(ServerError::ResponseError(e)),
            Ok(v) => if response_kind(v) == expected {
                r is Ok && r->Ok_0@ == v
            } else {
                r == Err::<Response, ServerError>(ServerError::ExpectedResponseType(expected))
            },
        },
{
    match Response::parse(trim_newline(line)) {
        Ok(response) => {
            if response.kind() == expected {
                Ok(response)
            } else {
                Err(ServerError::ExpectedResponseType(expected))
            }
        },
        Err(e) => Err(ServerError::ResponseError(e)),
    }
}

/// Checks, before anything is sent, that `request` asks for a response of
/// the kind of `response`.
pub fn check_pairing(request: &Request, response: &Response) -> (r: Result<(), ServerError>)
    ensures
        request@ == response_kind(response@) ==> r is Ok,
        request@ != response_kind(response@) ==> r == Err::<(), ServerError>(
            ServerError::MismatchedRequestTypes(request@, response_kind(response@)),
        ),
{
    let equivalent = Request::from_response(response);
    if *request.request_type() == *equivalent.request_type() {
        Ok(())
    } else {
        Err(ServerError::MismatchedRequestTypes(*request.request_type(), *equivalent.request_type()))
    }
}

} // verus!
