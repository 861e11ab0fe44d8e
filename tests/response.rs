use http_server::{Response, StatusCode};

#[test]
fn serialises_ok_with_body() {
    let r = Response::new(StatusCode::OK, Some("hi".to_string()));
    assert_eq!(r.to_wire(), "HTTP/1.1 200 OK\r\n\r\nhi");
    assert_eq!(r.head(), "HTTP/1.1 200 OK\r\n\r\n");
    assert_eq!(r.body_text(), "hi");
}

#[test]
fn serialises_not_found_without_body() {
    let r = Response::new(StatusCode::NotFound, None);
    assert_eq!(r.to_wire(), "HTTP/1.1 404 Not Found\r\n\r\n");
    assert_eq!(r.head(), "HTTP/1.1 404 Not Found\r\n\r\n");
    assert_eq!(r.body_text(), "");
}

#[test]
fn serialises_bad_request() {
    let r = Response::new(StatusCode::BadRequest, Some(String::new()));
    assert_eq!(r.head(), "HTTP/1.1 400 Bad Request\r\n\r\n");
    assert_eq!(r.body_text(), "");
    assert_eq!(r.status_code(), StatusCode::BadRequest);
}

#[test]
fn status_codes() {
    assert_eq!(StatusCode::OK.code(), 200);
    assert_eq!(StatusCode::BadRequest.code(), 400);
    assert_eq!(StatusCode::NotFound.code(), 404);
    assert_eq!(StatusCode::OK.code_text(), "200");
    assert_eq!(StatusCode::NotFound.code_text(), "404");
    assert_eq!(StatusCode::OK.reason_phrase(), "OK");
    assert_eq!(StatusCode::BadRequest.reason_phrase(), "Bad Request");
    assert_eq!(StatusCode::NotFound.reason_phrase(), "Not Found");
}
