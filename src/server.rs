use vstd::prelude::*;

use crate::request::{parse_request, ParseError, Request, RequestModel};
use crate::response::{Response, ResponseModel};
use crate::status_code::StatusCode;

verus! {

/// What a server asks of the application: a response for each request, and one for
/// input that did not parse. The spec functions name those answers, so that a caller can
/// say which of the two it asked for.
pub trait Handler: Sized {
    /// `response` is this handler's answer to `request`, given in state `self` and
    /// leaving it in state `after`. An impl states its own; by default nothing is said.
    open spec fn answers(
        &self,
        after: &Self,
        request: RequestModel,
        response: ResponseModel,
    ) -> bool {
        true
    }

    /// `response` is this handler's answer to input that failed with `e`, given in state
    /// `self` and leaving it in state `after`. An impl states its own; by default nothing
    /// is said.
    open spec fn refuses(&self, after: &Self, e: ParseError, response: ResponseModel) -> bool {
        true
    }

    fn handle_request(&mut self, request: &Request) -> (r: Response)
        ensures
            old(self).answers(final(self), request@, r@),
    ;

    /// The answer to input that did not parse; `bad_request` gives the usual one.
    fn handle_bad_request(&mut self, e: &ParseError) -> (r: Response)
        ensures
            old(self).refuses(final(self), *e, r@),
    ;
}

/// The default answer to input that did not parse: `400 Bad Request` with no body.
pub fn bad_request(_e: &ParseError) -> (r: Response)
    ensures
        r@ == (ResponseModel { status: StatusCode::BadRequest, body: None }),
{
    Response::new(StatusCode::BadRequest, None)
}

/// What one read from a connection amounts to.
pub enum Exchange<'b> {
    /// Nothing was read: the peer has closed the connection.
    Closed,
    /// The bytes read hold a request.
    Parsed(Request<'b>),
    /// The bytes read do not hold a request, for this reason.
    Malformed(ParseError),
}

/// A server bound to one address.
#[derive(Debug)]
pub struct Server {
    pub addr: String,
}

impl Server {
    /// A server for the address `addr`, such as `127.0.0.1:8080`.
    pub fn new(addr: String) -> (r: Server)
        ensures
            r.addr@ == addr@,
    {
        Server { addr }
    }

    /// Classifies one read of `bytes_read` bytes into `buffer`: closed when nothing was
    /// read, otherwise the request parsed from the bytes read, or why they do not parse.
    pub fn read_outcome<'b>(buffer: &'b [u8], bytes_read: usize) -> (r: Exchange<'b>)
        requires
            bytes_read <= buffer@.len(),
        ensures
            bytes_read == 0 ==> r is Closed,
            bytes_read > 0 ==> match parse_request(buffer@.take(bytes_read as int)) {
                Ok(m) => r matches Exchange::Parsed(req) && req@ == m,
                Err(e) => r matches Exchange::Malformed(f) && f == e,
            },
    {
        if bytes_read == 0 {
            return Exchange::Closed;
        }
        let bytes = &buffer[0..bytes_read];
        assert(bytes@ =~= buffer@.take(bytes_read as int));
        match Request::try_from(bytes) {
            Ok(request) => Exchange::Parsed(request),
            Err(e) => Exchange::Malformed(e),
        }
    }

    /// Answers one read from a connection: `None` when nothing was read (the peer has
    /// closed it); otherwise the handler's response to the request parsed from the bytes
    /// read, or its response to the parse error.
    pub fn respond<H: Handler>(handler: &mut H, buffer: &[u8], bytes_read: usize) -> (r: Option<
        Response,
    >)
        requires
            bytes_read <= buffer@.len(),
        ensures
            r is None <==> bytes_read == 0,
            bytes_read == 0 ==> *final(handler) == *old(handler),
            bytes_read > 0 ==> match parse_request(buffer@.take(bytes_read as int)) {
                Ok(m) => old(handler).answers(final(handler), m, r->0@),
                Err(e) => old(handler).refuses(final(handler), e, r->0@),
            },
    {
        match Server::read_outcome(buffer, bytes_read) {
            Exchange::Closed => None,
            Exchange::Parsed(request) => Some(handler.handle_request(&request)),
            Exchange::Malformed(e) => Some(handler.handle_bad_request(&e)),
        }
    }
}

} // verus!
