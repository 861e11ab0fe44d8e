use vstd::prelude::*;
use vstd::string::*;

use crate::request::http_version;
use crate::status_code::{code_digits, reason_of, StatusCode};

verus! {

/// What a response holds: its status code and its body, if any.
pub struct ResponseModel {
    pub status: StatusCode,
    pub body: Option<Seq<char>>,
}

/// The status line and the empty line that ends the (absent) headers.
pub open spec fn head_text(s: StatusCode) -> Seq<char> {
    http_version() + seq![' '] + code_digits(s) + seq![' '] + reason_of(s) + seq![
        '\r',
        '\n',
        '\r',
        '\n',
    ]
}

/// The body as sent: the empty text when there is none.
pub open spec fn body_text_of(body: Option<Seq<char>>) -> Seq<char> {
    match body {
        Some(b) => b,
        None => Seq::empty(),
    }
}

/// Everything a response sends: `HTTP/1.1 <code> <reason>\r\n\r\n<body>`.
pub open spec fn wire_text(r: ResponseModel) -> Seq<char> {
    head_text(r.status) + body_text_of(r.body)
}

/// The text of an optional body.
pub open spec fn body_view(body: Option<String>) -> Option<Seq<char>> {
    match body {
        Some(b) => Some(b@),
        None => None,
    }
}

/// A status code and an optional body, sent once to the client.
#[derive(Debug)]
pub struct Response {
    status_code: StatusCode,
    body: Option<String>,
}

impl View for Response {
    type V = ResponseModel;

    closed spec fn view(&self) -> ResponseModel {
        ResponseModel { status: self.status_code, body: body_view(self.body) }
    }
}

impl Response {
    /// A response with the given status code and body.
    pub fn new(status_code: StatusCode, body: Option<String>) -> (r: Response)
        ensures
            r@ == (ResponseModel { status: status_code, body: body_view(body) }),
    {
        Response { status_code, body }
    }

    /// The status code.
    pub fn status_code(&self) -> (r: StatusCode)
        ensures
            r == self@.status,
    {
        self.status_code
    }

    /// The body as sent: the empty text when there is none.
    pub fn body_text(&self) -> (r: &str)
        ensures
            r@ == body_text_of(self@.body),
    {
        match &self.body {
            Some(b) => b.as_str(),
            None => {
                proof {
                    reveal_strlit("");
                }
                ""
            },
        }
    }

    /// The status line followed by the empty line: everything sent before the body.
    pub fn head(&self) -> (r: String)
        ensures
            r@ == head_text(self@.status),
    {
        let mut text = String::from_str("HTTP/1.1 ");
        text.append(self.status_code.code_text());
        text.append(" ");
        text.append(self.status_code.reason_phrase());
        text.append("\r\n\r\n");
        proof {
            reveal_strlit("HTTP/1.1 ");
            reveal_strlit(" ");
            reveal_strlit("\r\n\r\n");
            assert(text@ =~= head_text(self@.status));
        }
        text
    }

    /// The whole response as one text.
    pub fn to_wire(&self) -> (r: String)
        ensures
            r@ == wire_text(self@),
    {
        let mut text = self.head();
        text.append(self.body_text());
        text
    }
}

} // verus!
