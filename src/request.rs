use vstd::prelude::*;
use vstd::string::*;
use vstd::utf8::*;

use crate::method::{method_of_word, Method, MethodError};
use crate::query_string::{lemma_repeated_key_query, parse_query, Entry, QueryString};
use crate::scan::{
    ascii_bytes, find_first_of, first_of, lemma_ascii_text, lemma_first_of_is, same_text,
    split_around, split_first_of,
};

verus! {

/// The byte ` `, which ends a word of the request line.
pub const SPACE: u8 = 32;

/// The byte `\r`, which also ends a word of the request line.
pub const CARRIAGE_RETURN: u8 = 13;

/// The byte `?`, which starts the query string of a request target.
pub const QUESTION_MARK: u8 = 63;

/// Why a request could not be parsed.
#[derive(Debug, PartialEq, Eq, Structural, Clone, Copy)]
pub enum ParseError {
    InvalidRequest,
    InvalidMethod,
    InvalidEncoding,
    InvalidProtocol,
}

/// What a parsed request holds: its method, its path and its query string, if any.
pub struct RequestModel {
    pub method: Method,
    pub path: Seq<u8>,
    pub query: Option<Seq<Entry>>,
}

/// The text before the first space or carriage return, and the text after that byte.
pub open spec fn next_word(s: Seq<u8>) -> Option<(Seq<u8>, Seq<u8>)> {
    split_first_of(s, SPACE, CARRIAGE_RETURN)
}

/// The only protocol accepted.
pub open spec fn http_version() -> Seq<char> {
    seq!['H', 'T', 'T', 'P', '/', '1', '.', '1']
}

/// A request target split at its first `?` into the path and the parsed query string.
pub open spec fn target_of(target: Seq<u8>) -> (Seq<u8>, Option<Seq<Entry>>) {
    match split_first_of(target, QUESTION_MARK, QUESTION_MARK) {
        Some((path, query)) => (path, Some(parse_query(query))),
        None => (target, None),
    }
}

/// The result of parsing a request from `buf`: decode the text, take the method, target
/// and protocol words of the request line, check the protocol, then the method word,
/// compared after upper-casing it.
pub open spec fn parse_request(buf: Seq<u8>) -> Result<RequestModel, ParseError> {
    if !valid_utf8(buf) {
        Err(ParseError::InvalidEncoding)
    } else {
        match next_word(buf) {
            None => Err(ParseError::InvalidRequest),
            Some((method, rest)) => match next_word(rest) {
                None => Err(ParseError::InvalidRequest),
                Some((target, rest)) => match next_word(rest) {
                    None => Err(ParseError::InvalidRequest),
                    Some((protocol, _)) => if protocol != ascii_bytes(http_version()) {
                        Err(ParseError::InvalidProtocol)
                    } else {
                        match method_of_word(decode_utf8(method)) {
                            None => Err(ParseError::InvalidMethod),
                            Some(m) => Ok(
                                RequestModel {
                                    method: m,
                                    path: target_of(target).0,
                                    query: target_of(target).1,
                                },
                            ),
                        }
                    },
                },
            },
        }
    }
}

/// No byte of `s` ends a word.
pub open spec fn no_delimiter(s: Seq<u8>) -> bool {
    forall|i: int| 0 <= i < s.len() ==> s[i] != SPACE && s[i] != CARRIAGE_RETURN
}

/// A text with no space and no carriage return has no first word.
pub proof fn lemma_no_delimiter_no_word(s: Seq<u8>)
    requires
        no_delimiter(s),
    ensures
        next_word(s) is None,
{
    assert(first_of(s, SPACE, CARRIAGE_RETURN) is None);
}

/// In `a`, a space or carriage return `d`, then `b`, where `a` holds neither, the first
/// word is `a` and the rest is exactly `b`, leading spaces included.
pub proof fn lemma_word_then_rest(a: Seq<u8>, d: u8, b: Seq<u8>)
    requires
        no_delimiter(a),
        d == SPACE || d == CARRIAGE_RETURN,
    ensures
        next_word(a + seq![d] + b) == Some((a, b)),
{
    let s = a + seq![d] + b;
    lemma_first_of_is(s, SPACE, CARRIAGE_RETURN, a.len() as int);
    assert(s.take(a.len() as int) =~= a);
    assert(s.skip(a.len() + 1 as int) =~= b);
}

/// Bytes that are not valid UTF-8 are refused with `InvalidEncoding`, whatever they hold.
pub proof fn lemma_invalid_encoding(buf: Seq<u8>)
    requires
        !valid_utf8(buf),
    ensures
        parse_request(buf) == Err::<RequestModel, ParseError>(ParseError::InvalidEncoding),
{
}

/// A request line whose three words are followed by a delimiter, with a protocol word
/// other than `HTTP/1.1`, is refused with `InvalidProtocol`, whatever the method word.
pub proof fn lemma_wrong_protocol(
    method: Seq<u8>,
    d1: u8,
    target: Seq<u8>,
    d2: u8,
    protocol: Seq<u8>,
    d3: u8,
    tail: Seq<u8>,
)
    requires
        valid_utf8(method + seq![d1] + target + seq![d2] + protocol + seq![d3] + tail),
        no_delimiter(method),
        no_delimiter(target),
        no_delimiter(protocol),
        d1 == SPACE || d1 == CARRIAGE_RETURN,
        d2 == SPACE || d2 == CARRIAGE_RETURN,
        d3 == SPACE || d3 == CARRIAGE_RETURN,
        protocol != ascii_bytes(http_version()),
    ensures
        parse_request(method + seq![d1] + target + seq![d2] + protocol + seq![d3] + tail)
            == Err::<RequestModel, ParseError>(ParseError::InvalidProtocol),
{
    let rest2 = protocol + seq![d3] + tail;
    let rest1 = target + seq![d2] + rest2;
    let buf = method + seq![d1] + rest1;
    assert(method + seq![d1] + target + seq![d2] + protocol + seq![d3] + tail =~= buf);
    lemma_word_then_rest(method, d1, rest1);
    lemma_word_then_rest(target, d2, rest2);
    lemma_word_then_rest(protocol, d3, tail);
}

/// A request line that ends after two words, with no delimiter after the third, is
/// refused with `InvalidRequest`.
pub proof fn lemma_missing_protocol(
    method: Seq<u8>,
    d1: u8,
    target: Seq<u8>,
    d2: u8,
    tail: Seq<u8>,
)
    requires
        valid_utf8(method + seq![d1] + target + seq![d2] + tail),
        no_delimiter(method),
        no_delimiter(target),
        no_delimiter(tail),
        d1 == SPACE || d1 == CARRIAGE_RETURN,
        d2 == SPACE || d2 == CARRIAGE_RETURN,
    ensures
        parse_request(method + seq![d1] + target + seq![d2] + tail) == Err::<
            RequestModel,
            ParseError,
        >(ParseError::InvalidRequest),
{
    let rest1 = target + seq![d2] + tail;
    let buf = method + seq![d1] + rest1;
    assert(method + seq![d1] + target + seq![d2] + tail =~= buf);
    lemma_word_then_rest(method, d1, rest1);
    lemma_word_then_rest(target, d2, tail);
    lemma_no_delimiter_no_word(tail);
}

/// Any request that starts with the line `GET /p?x=1&x=2&y=3 HTTP/1.1` parses to a request
/// for path `/p`, whose query string gives `x` the values `1` then `2` and `y` the value
/// `3`; its method is the one that the word `GET`, upper-cased, names.
pub proof fn lemma_repeated_key_request(rest: Seq<u8>)
    requires
        valid_utf8(ascii_bytes("GET /p?x=1&x=2&y=3 HTTP/1.1\r\n"@) + rest),
    ensures
        parse_request(ascii_bytes("GET /p?x=1&x=2&y=3 HTTP/1.1\r\n"@) + rest) == match method_of_word(
            "GET"@,
        ) {
            Some(m) => Ok::<RequestModel, ParseError>(
                (RequestModel {
                    method: m,
                    path: ascii_bytes("/p"@),
                    query: Some(
                        seq![
                            (ascii_bytes("x"@), seq![ascii_bytes("1"@), ascii_bytes("2"@)]),
                            (ascii_bytes("y"@), seq![ascii_bytes("3"@)]),
                        ],
                    ),
                }),
            ),
            None => Err(ParseError::InvalidMethod),
        },
{
    reveal_strlit("GET /p?x=1&x=2&y=3 HTTP/1.1\r\n");
    reveal_strlit("/p");
    reveal_strlit("x");
    reveal_strlit("y");
    reveal_strlit("1");
    reveal_strlit("2");
    reveal_strlit("3");
    let m = seq![71u8, 69, 84];
    let q = seq![120u8, 61, 49, 38, 120, 61, 50, 38, 121, 61, 51];
    let t = seq![47u8, 112, 63] + q;
    let p = seq![72u8, 84, 84, 80, 47, 49, 46, 49];
    let tail = seq![10u8] + rest;
    let r2 = p + seq![CARRIAGE_RETURN] + tail;
    let r1 = t + seq![SPACE] + r2;
    let buf = m + seq![SPACE] + r1;
    assert(ascii_bytes("GET /p?x=1&x=2&y=3 HTTP/1.1\r\n"@) + rest =~= buf);
    assert(no_delimiter(m));
    assert(no_delimiter(t));
    assert(no_delimiter(p));
    lemma_word_then_rest(m, SPACE, r1);
    lemma_word_then_rest(t, SPACE, r2);
    lemma_word_then_rest(p, CARRIAGE_RETURN, tail);
    assert(p =~= ascii_bytes(http_version()));
    reveal_strlit("GET");
    lemma_ascii_text("GET");
    assert("GET".spec_bytes() =~= m);
    encode_utf8_decode_utf8("GET"@);
    assert(decode_utf8(m) == "GET"@);
    lemma_first_of_is(t, QUESTION_MARK, QUESTION_MARK, 2);
    assert(t.take(2) =~= ascii_bytes("/p"@));
    assert(t.skip(3) =~= q);
    lemma_repeated_key_query();
    assert(ascii_bytes("x"@) =~= seq![120u8]);
    assert(ascii_bytes("y"@) =~= seq![121u8]);
    assert(ascii_bytes("1"@) =~= seq![49u8]);
    assert(ascii_bytes("2"@) =~= seq![50u8]);
    assert(ascii_bytes("3"@) =~= seq![51u8]);
}

/// Splits off the first word of `request`: the text before the first space or carriage
/// return, and the rest after that byte, untrimmed. Both borrow from `request`.
pub fn get_next_word<'buf>(request: &'buf str) -> (r: Option<(&'buf str, &'buf str)>)
    ensures
        match r {
            Some((word, rest)) => next_word(request.spec_bytes()) == Some(
                (word.spec_bytes(), rest.spec_bytes()),
            ),
            None => next_word(request.spec_bytes()) is None,
        },
{
    match find_first_of(request.as_bytes(), SPACE, CARRIAGE_RETURN) {
        Some(i) => Some(split_around(request, i)),
        None => None,
    }
}

#[verifier::external_type_specification]
#[verifier::external_body]
pub struct ExUtf8Error(std::str::Utf8Error);

/// Relies on std::str::from_utf8: it accepts exactly the valid UTF-8 byte sequences, and
/// the text it returns is those same bytes.
#[verifier::external_body]
fn text_of<'a>(bytes: &'a [u8]) -> (r: Result<&'a str, std::str::Utf8Error>)
    ensures
        match r {
            Ok(s) => valid_utf8(bytes@) && s.spec_bytes() == bytes@,
            Err(_) => !valid_utf8(bytes@),
        },
{
    std::str::from_utf8(bytes)
}

impl From<MethodError> for ParseError {
    fn from(_e: MethodError) -> (r: ParseError) {
        ParseError::InvalidMethod
    }
}

impl vstd::std_specs::convert::FromSpecImpl<MethodError> for ParseError {
    open spec fn obeys_from_spec() -> bool {
        true
    }

    open spec fn from_spec(_e: MethodError) -> ParseError {
        ParseError::InvalidMethod
    }
}

impl From<std::str::Utf8Error> for ParseError {
    fn from(_e: std::str::Utf8Error) -> (r: ParseError) {
        ParseError::InvalidEncoding
    }
}

impl vstd::std_specs::convert::FromSpecImpl<std::str::Utf8Error> for ParseError {
    open spec fn obeys_from_spec() -> bool {
        true
    }

    open spec fn from_spec(_e: std::str::Utf8Error) -> ParseError {
        ParseError::InvalidEncoding
    }
}

/// The message of each kind of error.
pub open spec fn error_message(e: ParseError) -> Seq<char> {
    match e {
        ParseError::InvalidRequest => "The request is invalid"@,
        ParseError::InvalidMethod => "The method is not supported"@,
        ParseError::InvalidEncoding => "The request is not valid UTF-8"@,
        ParseError::InvalidProtocol => "The protocol is not supported"@,
    }
}

impl ParseError {
    /// A fixed human-readable message for the error.
    pub fn message(&self) -> (r: &'static str)
        ensures
            r@ == error_message(*self),
    {
        match self {
            ParseError::InvalidRequest => "The request is invalid",
            ParseError::InvalidMethod => "The method is not supported",
            ParseError::InvalidEncoding => "The request is not valid UTF-8",
            ParseError::InvalidProtocol => "The protocol is not supported",
        }
    }
}

/// A request parsed from a buffer; its path and query string borrow from that buffer.
#[derive(Debug)]
pub struct Request<'buf> {
    method: Method,
    query_string: Option<QueryString<'buf>>,
    path: &'buf str,
}

impl<'buf> View for Request<'buf> {
    type V = RequestModel;

    closed spec fn view(&self) -> RequestModel {
        RequestModel {
            method: self.method,
            path: self.path.spec_bytes(),
            query: match self.query_string {
                Some(q) => Some(q@),
                None => None,
            },
        }
    }
}

/// The bytes of the protocol version accepted.
fn http_version_text() -> (r: &'static str)
    ensures
        r.spec_bytes() == ascii_bytes(http_version()),
{
    let v = "HTTP/1.1";
    proof {
        reveal_strlit("HTTP/1.1");
        assert(v@ =~= http_version());
        lemma_ascii_text(v);
    }
    v
}

impl<'buf> Request<'buf> {
    /// Parses a request from the bytes of one read. Headers and body are ignored.
    pub fn try_from(buffer: &'buf [u8]) -> (r: Result<Request<'buf>, ParseError>)
        ensures
            match r {
                Ok(req) => parse_request(buffer@) == Ok::<RequestModel, ParseError>(req@),
                Err(e) => parse_request(buffer@) == Err::<RequestModel, ParseError>(e),
            },
    {
        let request = match text_of(buffer) {
            Ok(s) => s,
            Err(e) => return Err(ParseError::from(e)),
        };
        let (method, rest) = match get_next_word(request) {
            Some(w) => w,
            None => return Err(ParseError::InvalidRequest),
        };
        let (target, rest) = match get_next_word(rest) {
            Some(w) => w,
            None => return Err(ParseError::InvalidRequest),
        };
        let (protocol, _) = match get_next_word(rest) {
            Some(w) => w,
            None => return Err(ParseError::InvalidRequest),
        };
        if !same_text(protocol, http_version_text()) {
            return Err(ParseError::InvalidProtocol);
        }
        proof {
            encode_utf8_decode_utf8(method@);
        }
        let method = match Method::from_token(method) {
            Ok(m) => m,
            Err(e) => return Err(ParseError::from(e)),
        };
        let (path, query_string) = match find_first_of(
            target.as_bytes(),
            QUESTION_MARK,
            QUESTION_MARK,
        ) {
            Some(i) => {
                let (path, query) = split_around(target, i);
                (path, Some(QueryString::from(query)))
            },
            None => (target, None),
        };
        Ok(Request { method, query_string, path })
    }

    /// The request method.
    pub fn method(&self) -> (r: &Method)
        ensures
            *r == self@.method,
    {
        &self.method
    }

    /// The path, without the query string.
    pub fn path(&self) -> (r: &'buf str)
        ensures
            r.spec_bytes() == self@.path,
    {
        self.path
    }

    /// The query string, if the target had one.
    pub fn query_string(&self) -> (r: Option<&QueryString<'buf>>)
        ensures
            match r {
                Some(q) => self@.query == Some(q@),
                None => self@.query is None,
            },
    {
        match &self.query_string {
            Some(q) => Some(q),
            None => None,
        }
    }
}

} // verus!
