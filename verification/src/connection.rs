//! One connection: from what was read off the socket to what has to be done.
//!
//! A connection carries one request. The caller reads once, asks
//! `handle_received` what to do, does it, and closes the connection.

use crate::env::ProgramEnv;
use crate::request::{parse_request, Request, RequestView};
use crate::response::{HttpResponse, ResponseView};
use crate::route::{answerable, route, Action, ActionView};
use crate::text::{chars_of, find_from, split, split_chars, split_once, string_of};
use vstd::prelude::*;
use vstd::slice::slice_subrange;
use vstd::utf8::{decode_utf8, valid_utf8};

verus! {

/// What the handler of a connection does after its read.
#[derive(Debug, Clone, PartialEq, Eq)]
pub enum Step {
    /// Nothing was read: close the connection without a response.
    Close,
    /// There is no answer to the request: the handler fails, and the
    /// connection is closed without a response.
    Fail,
    /// Carry out the action and send the response that comes of it.
    Act(Action),
}

/// A step as plain values.
pub enum StepView {
    Close,
    Fail,
    Act(ActionView),
}

impl View for Step {
    type V = StepView;

    open spec fn view(&self) -> StepView {
        match self {
            Step::Close => StepView::Close,
            Step::Fail => StepView::Fail,
            Step::Act(action) => StepView::Act(action@),
        }
    }
}

/// The request that a message holds. The header block ends at the first
/// empty line; its lines end in CR LF; the body is all that follows the
/// empty line. Without an empty line, or without a request line in the
/// header block, there is no request.
pub open spec fn parse_message(content: Seq<char>) -> Option<RequestView> {
    match split_once(content, "\r\n\r\n"@) {
        Some((head, body)) => parse_request(split(head, "\r\n"@), body),
        None => None,
    }
}

/// What to do about a message. A message that holds no request is answered
/// `404 Not Found`.
pub open spec fn plan(content: Seq<char>, files_dir: Option<Seq<char>>) -> StepView {
    match parse_message(content) {
        Some(req) => if answerable(req) {
            StepView::Act(route(req, files_dir))
        } else {
            StepView::Fail
        },
        None => StepView::Act(ActionView::Respond(ResponseView::NotFound)),
    }
}

/// What to do after a read that gave `received`, which reads as `content`.
pub open spec fn plan_received(
    received: Seq<u8>,
    content: Seq<char>,
    files_dir: Option<Seq<char>>,
) -> StepView {
    if received.len() == 0 {
        StepView::Close
    } else {
        plan(content, files_dir)
    }
}

/// The text that `String::from_utf8_lossy` makes of bytes.
pub uninterp spec fn utf8_lossy(bytes: Seq<u8>) -> Seq<char>;

/// `String::from_utf8_lossy`: the bytes read as UTF-8. Bytes that are valid
/// UTF-8 give the text that they encode; of other bytes the text is only
/// named.
#[verifier::external_body]
fn decode_lossy(bytes: &[u8]) -> (text: String)
    ensures
        text@ == utf8_lossy(bytes@),
        valid_utf8(bytes@) ==> text@ == decode_utf8(bytes@),
{
    String::from_utf8_lossy(bytes).into_owned()
}

impl Request {
    /// Reads the request that a message holds.
    pub fn parse(content: &str) -> (request: Option<Request>)
        ensures
            match request {
                Some(r) => parse_message(content@) == Some(r@),
                None => parse_message(content@) is None,
            },
    {
        let chars = chars_of(content);
        let blank = chars_of("\r\n\r\n");
        let crlf = chars_of("\r\n");
        proof {
            reveal_strlit("\r\n\r\n");
            reveal_strlit("\r\n");
            assert(chars@.skip(0) =~= chars@);
        }
        let end: usize = chars.len();
        match find_from(chars.as_slice(), blank.as_slice(), 0) {
            Some(i) => {
                let head = slice_subrange(chars.as_slice(), 0, i);
                let body = slice_subrange(chars.as_slice(), i + 4, end);
                let lines = split_chars(head, crlf.as_slice());
                Request::from_lines(lines.as_slice(), string_of(body))
            },
            None => None,
        }
    }
}

/// Says what to do about a message.
pub fn handle_message(content: &str, env: &ProgramEnv) -> (step: Step)
    ensures
        step@ == plan(content@, env@),
{
    match Request::parse(content) {
        Some(request) => if request.answerable() {
            Step::Act(request.handle_route(env))
        } else {
            Step::Fail
        },
        None => Step::Act(Action::Respond(HttpResponse::NotFound)),
    }
}

/// Says what to do after a read that gave `received`.
///
/// The bytes are read as UTF-8, and what is not UTF-8 among them is
/// replaced as `String::from_utf8_lossy` does it.
pub fn handle_received(received: &[u8], env: &ProgramEnv) -> (step: Step)
    ensures
        step@ == plan_received(received@, utf8_lossy(received@), env@),
        valid_utf8(received@) ==> step@ == plan_received(
            received@,
            decode_utf8(received@),
            env@,
        ),
{
    if received.len() == 0 {
        return Step::Close;
    }
    let content = decode_lossy(received);
    handle_message(content.as_str(), env)
}

} // verus!
