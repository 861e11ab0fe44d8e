use http_server::{bad_request, Exchange, Handler, Method, ParseError, Request, Response, Server, StatusCode, WebsiteHandler};

struct IndexHandler;

impl Handler for IndexHandler {
    fn handle_request(&mut self, _request: &Request) -> Response {
        Response::new(StatusCode::OK, Some("index".to_string()))
    }

    fn handle_bad_request(&mut self, e: &ParseError) -> Response {
        bad_request(e)
    }
}

struct GetOnly;

impl Handler for GetOnly {
    fn handle_request(&mut self, request: &Request) -> Response {
        match request.method() {
            Method::GET => Response::new(StatusCode::OK, None),
            _ => Response::new(StatusCode::NotFound, None),
        }
    }

    fn handle_bad_request(&mut self, e: &ParseError) -> Response {
        bad_request(e)
    }
}

fn answer<H: Handler>(handler: &mut H, input: &[u8]) -> String {
    let mut buffer = [0u8; 1024];
    buffer[..input.len()].copy_from_slice(input);
    Server::respond(handler, &buffer, input.len()).unwrap().to_wire()
}

#[test]
fn get_root_is_answered_by_handler() {
    let input = b"GET / HTTP/1.1\r\nHost: x\r\n\r\n";
    let req = Request::try_from(&input[..]).ok().unwrap();
    assert_eq!(*req.method(), Method::GET);
    assert_eq!(req.path(), "/");
    assert!(req.query_string().is_none());
    assert_eq!(answer(&mut IndexHandler, input), "HTTP/1.1 200 OK\r\n\r\nindex");
}

#[test]
fn post_to_get_only_handler_is_not_found() {
    let input = b"POST /submit HTTP/1.1\r\n\r\n";
    assert_eq!(answer(&mut GetOnly, input), "HTTP/1.1 404 Not Found\r\n\r\n");
}

#[test]
fn garbage_is_a_bad_request() {
    let input = b"GARBAGE\r\n";
    assert_eq!(answer(&mut IndexHandler, input), "HTTP/1.1 400 Bad Request\r\n\r\n");
}

#[test]
fn empty_read_closes_connection() {
    let buffer = [0u8; 16];
    assert!(Server::respond(&mut IndexHandler, &buffer, 0).is_none());
}

#[test]
fn server_keeps_address() {
    let s = Server::new("127.0.0.1:8080".to_string());
    assert_eq!(s.addr, "127.0.0.1:8080");
}

#[test]
fn website_routes_requests() {
    let site = WebsiteHandler::new("/srv/public".to_string());
    assert_eq!(site.public_path(), "/srv/public");
    let root = Request::try_from(&b"GET / HTTP/1.1\r\n"[..]).ok().unwrap();
    assert_eq!(site.requested_file(&root), Some("index.html"));
    let hello = Request::try_from(&b"GET /hello HTTP/1.1\r\n"[..]).ok().unwrap();
    assert_eq!(site.requested_file(&hello), Some("hello.html"));
    let other = Request::try_from(&b"GET /style.css?v=2 HTTP/1.1\r\n"[..]).ok().unwrap();
    assert_eq!(site.requested_file(&other), Some("/style.css"));
    let post = Request::try_from(&b"POST / HTTP/1.1\r\n"[..]).ok().unwrap();
    assert_eq!(site.requested_file(&post), None);
    assert_eq!(site.file_location("index.html"), "/srv/public/index.html");
}

#[test]
fn website_responses() {
    let site = WebsiteHandler::new("public".to_string());
    let root = Request::try_from(&b"GET / HTTP/1.1\r\n"[..]).ok().unwrap();
    assert_eq!(site.response_for(&root, Some("<p>".to_string())).to_wire(), "HTTP/1.1 200 OK\r\n\r\n<p>");
    assert_eq!(site.response_for(&root, None).to_wire(), "HTTP/1.1 200 OK\r\n\r\n");
    let other = Request::try_from(&b"GET /a.txt HTTP/1.1\r\n"[..]).ok().unwrap();
    assert_eq!(site.response_for(&other, Some("a".to_string())).to_wire(), "HTTP/1.1 200 OK\r\n\r\na");
    assert_eq!(site.response_for(&other, None).to_wire(), "HTTP/1.1 404 Not Found\r\n\r\n");
    let post = Request::try_from(&b"POST /a.txt HTTP/1.1\r\n"[..]).ok().unwrap();
    assert_eq!(site.response_for(&post, Some("a".to_string())).to_wire(), "HTTP/1.1 404 Not Found\r\n\r\n");
}

#[test]
fn read_outcomes() {
    let mut buffer = [0u8; 64];
    let input = b"GET /a?k=v HTTP/1.1\r\n";
    buffer[..input.len()].copy_from_slice(input);
    assert!(matches!(Server::read_outcome(&buffer, 0), Exchange::Closed));
    match Server::read_outcome(&buffer, input.len()) {
        Exchange::Parsed(req) => {
            assert_eq!(req.path(), "/a");
            assert_eq!(*req.method(), Method::GET);
        }
        _ => panic!("expected a parsed request"),
    }
    match Server::read_outcome(&buffer, 5) {
        Exchange::Malformed(e) => assert_eq!(e, ParseError::InvalidRequest),
        _ => panic!("expected a parse error"),
    }
}

#[test]
fn default_bad_request_answer() {
    let r = bad_request(&ParseError::InvalidProtocol);
    assert_eq!(r.status_code(), StatusCode::BadRequest);
    assert_eq!(r.to_wire(), "HTTP/1.1 400 Bad Request\r\n\r\n");
}
