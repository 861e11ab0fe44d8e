use http_server::{Method, ParseError, QueryString, Request, Value};

#[test]
fn parses_query_with_repeated_key() {
    let buf = b"GET /p?x=1&x=2&y=3 HTTP/1.1\r\nHost: a\r\n\r\n";
    let req = Request::try_from(&buf[..]).ok().unwrap();
    assert_eq!(*req.method(), Method::GET);
    assert_eq!(req.path(), "/p");
    let q = req.query_string().unwrap();
    assert_eq!(q.get("x"), Some(&Value::Multiple(vec!["1", "2"])));
    assert_eq!(q.get("y"), Some(&Value::Single("3")));
    assert_eq!(q.get("z"), None);
}

#[test]
fn parses_plain_path() {
    let buf = b"GET / HTTP/1.1\r\nHost: x\r\n\r\n";
    let req = Request::try_from(&buf[..]).ok().unwrap();
    assert_eq!(*req.method(), Method::GET);
    assert_eq!(req.path(), "/");
    assert!(req.query_string().is_none());
}

#[test]
fn method_is_case_insensitive() {
    let buf = b"pAtCh /a HTTP/1.1\r\n";
    let req = Request::try_from(&buf[..]).ok().unwrap();
    assert_eq!(*req.method(), Method::PATCH);
    let buf = b"delete /a HTTP/1.1\r\n";
    let req = Request::try_from(&buf[..]).ok().unwrap();
    assert_eq!(*req.method(), Method::DELETE);
}

#[test]
fn every_method_is_recognised() {
    let names = ["GET", "POST", "PUT", "DELETE", "HEAD", "CONNECT", "OPTIONS", "TRACE", "PATCH"];
    let methods = [
        Method::GET,
        Method::POST,
        Method::PUT,
        Method::DELETE,
        Method::HEAD,
        Method::CONNECT,
        Method::OPTIONS,
        Method::TRACE,
        Method::PATCH,
    ];
    for (name, method) in names.iter().zip(methods.iter()) {
        assert_eq!(Method::from_token(name).ok(), Some(*method));
        assert_eq!(name.to_lowercase().parse::<Method>().ok(), Some(*method));
        assert_eq!(method.as_str(), *name);
    }
}

#[test]
fn unknown_or_empty_method_is_refused() {
    assert!(Method::from_token("").is_err());
    assert!(Method::from_token("GETS").is_err());
    assert!(Method::from_token(" GET").is_err());
    let e = Method::from_token("FETCH").err().unwrap();
    assert_eq!(e.message(), "Invalid HTTP method");
}

#[test]
fn wrong_protocol_is_refused() {
    for line in [
        &b"GET / HTTP/1.0\r\n"[..],
        &b"GET / HTTP/2\r\n"[..],
        &b"GET / http/1.1\r\n"[..],
        &b"FOO / HTTP/2 \r\n"[..],
    ] {
        assert_eq!(Request::try_from(line).err(), Some(ParseError::InvalidProtocol));
    }
}

#[test]
fn missing_protocol_is_refused() {
    assert_eq!(Request::try_from(&b"GET /"[..]).err(), Some(ParseError::InvalidRequest));
    assert_eq!(Request::try_from(&b"GET / HTTP/1.1"[..]).err(), Some(ParseError::InvalidRequest));
    assert_eq!(Request::try_from(&b"GET /\r\n"[..]).err(), Some(ParseError::InvalidRequest));
    assert_eq!(Request::try_from(&b""[..]).err(), Some(ParseError::InvalidRequest));
}

#[test]
fn garbage_line_is_refused() {
    assert_eq!(Request::try_from(&b"GARBAGE\r\n"[..]).err(), Some(ParseError::InvalidRequest));
}

#[test]
fn unknown_method_is_refused() {
    assert_eq!(Request::try_from(&b"FOO / HTTP/1.1\r\n"[..]).err(), Some(ParseError::InvalidMethod));
}

#[test]
fn invalid_encoding_is_refused_first() {
    assert_eq!(Request::try_from(&[0xff, 0xfe][..]).err(), Some(ParseError::InvalidEncoding));
    let buf = [b'G', b'E', b'T', b' ', b'/', 0xc3, b' ', b'H'];
    assert_eq!(Request::try_from(&buf[..]).err(), Some(ParseError::InvalidEncoding));
    let mut line = b"GARBAGE".to_vec();
    line.push(0x80);
    assert_eq!(Request::try_from(&line[..]).err(), Some(ParseError::InvalidEncoding));
}

#[test]
fn multibyte_text_is_accepted() {
    let buf = "GET /café?ü=ß HTTP/1.1\r\n".as_bytes();
    let req = Request::try_from(buf).ok().unwrap();
    assert_eq!(req.path(), "/café");
    assert_eq!(req.query_string().unwrap().get("ü"), Some(&Value::Single("ß")));
}

#[test]
fn error_messages() {
    assert_eq!(ParseError::InvalidRequest.message(), "The request is invalid");
    assert_eq!(ParseError::InvalidMethod.message(), "The method is not supported");
    assert_eq!(ParseError::InvalidEncoding.message(), "The request is not valid UTF-8");
    assert_eq!(ParseError::InvalidProtocol.message(), "The protocol is not supported");
}

#[test]
fn errors_convert_to_parse_errors() {
    let e = Method::from_token("NOPE").err().unwrap();
    assert_eq!(ParseError::from(e), ParseError::InvalidMethod);
    let bad = vec![0xffu8];
    let utf8 = std::str::from_utf8(&bad).err().unwrap();
    assert_eq!(ParseError::from(utf8), ParseError::InvalidEncoding);
}

#[test]
fn query_string_segments() {
    let q = QueryString::from("a=1&b&c=&a=2&a=3&d=x=y");
    assert_eq!(q.get("a"), Some(&Value::Multiple(vec!["1", "2", "3"])));
    assert_eq!(q.get("b"), Some(&Value::Single("")));
    assert_eq!(q.get("c"), Some(&Value::Single("")));
    assert_eq!(q.get("d"), Some(&Value::Single("x=y")));
    assert_eq!(q.to_string(), "a&b&c&d");
}

#[test]
fn query_string_empty_text() {
    let q = QueryString::from("");
    assert_eq!(q.get(""), Some(&Value::Single("")));
    assert_eq!(q.to_string(), "");
    let q = QueryString::from("&");
    assert_eq!(q.get(""), Some(&Value::Multiple(vec!["", ""])));
}

#[test]
fn empty_query_after_question_mark() {
    let req = Request::try_from(&b"GET /p? HTTP/1.1\r\n"[..]).ok().unwrap();
    assert_eq!(req.path(), "/p");
    assert_eq!(req.query_string().unwrap().get(""), Some(&Value::Single("")));
    let req = Request::try_from(&b"GET /p?a=1?b=2 HTTP/1.1\r\n"[..]).ok().unwrap();
    assert_eq!(req.query_string().unwrap().get("a"), Some(&Value::Single("1?b=2")));
}

#[test]
fn method_word_is_upper_cased_as_unicode() {
    assert_eq!(Method::from_token("poſt").ok(), Some(Method::POST));
    assert_eq!(Method::from_token("poﬆ").ok(), Some(Method::POST));
    assert_eq!(Method::from_token("optıons").ok(), Some(Method::OPTIONS));
    let req = Request::try_from("poſt / HTTP/1.1\r\n".as_bytes()).ok().unwrap();
    assert_eq!(*req.method(), Method::POST);
    assert_eq!("PaTcH".parse::<Method>().ok(), Some(Method::PATCH));
    assert_eq!("get".parse::<Method>().ok(), Some(Method::GET));
    assert!("FETCH".parse::<Method>().is_err());
    assert!("".parse::<Method>().is_err());
}

#[test]
fn upper_cased_names_only() {
    assert_eq!(Method::from_upper("TRACE").ok(), Some(Method::TRACE));
    assert!(Method::from_upper("trace").is_err());
    assert!(Method::from_upper("").is_err());
}

#[test]
fn query_string_equality_ignores_key_order() {
    assert_eq!(QueryString::from("a=1&b=2"), QueryString::from("b=2&a=1"));
    assert_eq!(QueryString::from("a=1&b&a=2"), QueryString::from("b=&a=1&a=2"));
    assert_ne!(QueryString::from("a=1&b=2"), QueryString::from("a=1"));
    assert_ne!(QueryString::from("a=1&a=2"), QueryString::from("a=2&a=1"));
    assert_ne!(QueryString::from("a=1"), QueryString::from("a=1&a=1"));
    assert_ne!(QueryString::from("a=1"), QueryString::from("b=1"));
}
