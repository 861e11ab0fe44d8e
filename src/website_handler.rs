use vstd::prelude::*;
use vstd::string::*;

use crate::method::Method;
use crate::request::{Request, RequestModel};
use crate::response::{body_view, Response, ResponseModel};
use crate::scan::{ascii_bytes, lemma_ascii_text, same_text};
use crate::status_code::StatusCode;

verus! {

/// The path of the site's front page.
pub open spec fn root_path() -> Seq<char> {
    seq!['/']
}

/// The path of the greeting page.
pub open spec fn hello_path() -> Seq<char> {
    seq!['/', 'h', 'e', 'l', 'l', 'o']
}

/// The file served for the front page.
pub open spec fn index_file() -> Seq<char> {
    seq!['i', 'n', 'd', 'e', 'x', '.', 'h', 't', 'm', 'l']
}

/// The file served for the greeting page.
pub open spec fn hello_file() -> Seq<char> {
    seq!['h', 'e', 'l', 'l', 'o', '.', 'h', 't', 'm', 'l']
}

/// The two pages with a fixed file, answered `200 OK` even when the file is missing.
pub open spec fn is_fixed_page(path: Seq<u8>) -> bool {
    path == ascii_bytes(root_path()) || path == ascii_bytes(hello_path())
}

/// The file, relative to the public directory, that a GET for `path` serves.
pub open spec fn file_for(path: Seq<u8>) -> Seq<u8> {
    if path == ascii_bytes(root_path()) {
        ascii_bytes(index_file())
    } else if path == ascii_bytes(hello_path()) {
        ascii_bytes(hello_file())
    } else {
        path
    }
}

/// The site's answer to a request, given the contents of the file it asked for
/// (`None` when that file could not be read).
pub open spec fn site_response(req: RequestModel, contents: Option<Seq<char>>) -> ResponseModel {
    if req.method != Method::GET {
        ResponseModel { status: StatusCode::NotFound, body: None }
    } else if is_fixed_page(req.path) {
        ResponseModel { status: StatusCode::OK, body: contents }
    } else {
        match contents {
            Some(c) => ResponseModel { status: StatusCode::OK, body: Some(c) },
            None => ResponseModel { status: StatusCode::NotFound, body: None },
        }
    }
}

/// Any method but GET is answered `404 Not Found` with no body, whatever the file holds.
pub proof fn lemma_only_get_is_served(req: RequestModel, contents: Option<Seq<char>>)
    requires
        req.method != Method::GET,
    ensures
        site_response(req, contents) == (ResponseModel { status: StatusCode::NotFound, body: None }),
{
}

/// Serves the files of one public directory.
pub struct WebsiteHandler {
    public_path: String,
}

impl View for WebsiteHandler {
    type V = Seq<char>;

    /// The public directory.
    closed spec fn view(&self) -> Seq<char> {
        self.public_path@
    }
}

/// Whether `text` is the ASCII text `expected`.
fn is_literal(text: &str, literal: &str, expected: Ghost<Seq<char>>) -> (r: bool)
    requires
        literal@ == expected@,
        is_ascii(literal),
    ensures
        r == (text.spec_bytes() == ascii_bytes(expected@)),
{
    proof {
        lemma_ascii_text(literal);
    }
    same_text(text, literal)
}

impl WebsiteHandler {
    /// A handler serving the files under `public_path`.
    pub fn new(public_path: String) -> (r: WebsiteHandler)
        ensures
            r@ == public_path@,
    {
        WebsiteHandler { public_path }
    }

    /// The public directory.
    pub fn public_path(&self) -> (r: &str)
        ensures
            r@ == self@,
    {
        self.public_path.as_str()
    }

    /// The file a request asks for, relative to the public directory; `None` for any
    /// method but GET.
    pub fn requested_file<'r>(&self, request: &Request<'r>) -> (r: Option<&'r str>)
        ensures
            request@.method != Method::GET ==> r is None,
            request@.method == Method::GET ==> r is Some && r->0.spec_bytes() == file_for(
                request@.path,
            ),
    {
        if *request.method() != Method::GET {
            return None;
        }
        let path = request.path();
        proof {
            reveal_strlit("/");
            reveal_strlit("/hello");
            reveal_strlit("index.html");
            reveal_strlit("hello.html");
            assert("/"@ =~= root_path());
            assert("/hello"@ =~= hello_path());
            assert("index.html"@ =~= index_file());
            assert("hello.html"@ =~= hello_file());
        }
        if is_literal(path, "/", Ghost(root_path())) {
            let file = "index.html";
            proof {
                lemma_ascii_text(file);
            }
            Some(file)
        } else if is_literal(path, "/hello", Ghost(hello_path())) {
            let file = "hello.html";
            proof {
                lemma_ascii_text(file);
            }
            Some(file)
        } else {
            Some(path)
        }
    }

    /// The answer to a request, given the contents of the file it asked for (`None` when
    /// it could not be read): GET of the front or greeting page gives `200 OK` with the
    /// contents, if any; GET of another file gives `200 OK` with its contents, or
    /// `404 Not Found` when it could not be read; any other method gives `404 Not Found`.
    pub fn response_for(&self, request: &Request, contents: Option<String>) -> (r: Response)
        ensures
            r@ == site_response(request@, body_view(contents)),
    {
        if *request.method() != Method::GET {
            return Response::new(StatusCode::NotFound, None);
        }
        let path = request.path();
        proof {
            reveal_strlit("/");
            reveal_strlit("/hello");
            assert("/"@ =~= root_path());
            assert("/hello"@ =~= hello_path());
        }
        if is_literal(path, "/", Ghost(root_path())) || is_literal(
            path,
            "/hello",
            Ghost(hello_path()),
        ) {
            Response::new(StatusCode::OK, contents)
        } else {
            match contents {
                Some(c) => Response::new(StatusCode::OK, Some(c)),
                None => Response::new(StatusCode::NotFound, None),
            }
        }
    }

    /// Where `file` lies: the public directory, a `/`, then the file.
    pub fn file_location(&self, file: &str) -> (r: String)
        ensures
            r@ == self@ + seq!['/'] + file@,
    {
        let mut location = self.public_path.clone();
        location.append("/");
        location.append(file);
        proof {
            reveal_strlit("/");
            assert(location@ =~= self@ + seq!['/'] + file@);
        }
        location
    }
}

} // verus!
