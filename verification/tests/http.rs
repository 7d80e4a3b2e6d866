use bang::http::{
    Header, HeaderContent, HeaderKey, HttpCode, Method, Request, Response, Version,
};
use std::rc::Rc;

#[test]
fn status_codes_from_numbers() {
    assert_eq!(HttpCode::try_from(404u16), Ok(HttpCode::NotFound));
    assert_eq!(HttpCode::try_from(101u16), Ok(HttpCode::SwitchingProtocols));
    assert_eq!(HttpCode::try_from(511u16), Ok(HttpCode::NetworkAuthenticationRequired));
    assert_eq!(HttpCode::try_from(418u16), Err(()));
    assert_eq!(HttpCode::try_from(0u16), Err(()));
}

#[test]
fn status_code_text() {
    assert_eq!(String::from(&HttpCode::OK), "200 OK");
    assert_eq!(String::from(&HttpCode::NotAcceptable), "406 Method Not Acceptable");
    assert_eq!(String::from(&HttpCode::RequestTimeOut), "408 Request Timeout");
    assert_eq!(HttpCode::NotFound.as_bytes(), b"404 Not Found".to_vec());
}

#[test]
fn header_keys_by_name() {
    assert!(matches!(HeaderKey::from_name("Content-Length"), HeaderKey::ContentLength));
    assert!(matches!(HeaderKey::from_name("A-IM"), HeaderKey::AIM));
    match HeaderKey::from_name("X-Custom") {
        HeaderKey::Other(s) => assert_eq!(s, "X-Custom"),
        _ => panic!("a custom name is kept as it is"),
    }
    assert!(matches!("Warning".parse::<HeaderKey>(), Ok(HeaderKey::Warning)));
    assert_eq!(HeaderKey::HTTP2Settings.to_string(), "HTTP2-Settings");
    assert_eq!(HeaderKey::Other("X-Y".to_string()).to_string(), "X-Y");
}

#[test]
fn header_key_name_round_trip() {
    let keys = vec![
        HeaderKey::Host,
        HeaderKey::AccessControlRequestHeaders,
        HeaderKey::IfUnmodifiedSince,
        HeaderKey::TE,
        HeaderKey::Warning,
    ];
    for k in keys {
        let name = k.to_string();
        assert_eq!(HeaderKey::from_name(&name).to_string(), name);
    }
}

#[test]
fn methods_by_name() {
    assert!(matches!(Method::from("GET"), Method::Get));
    assert!(matches!(Method::from("PATCH"), Method::Patch));
    match Method::from("get") {
        Method::Other(s) => assert_eq!(s, "get"),
        _ => panic!("method names are matched by case"),
    }
    assert_eq!(Method::Options.to_string(), "OPTIONS");
    assert_eq!(Method::from("DELETE").to_string(), "DELETE");
}

#[test]
fn header_content_text() {
    let bytes: &[u8] = b"ab\xe9";
    assert_eq!(HeaderContent::Bytes(bytes).to_string(), "ab\u{e9}");
    assert_eq!(HeaderContent::Text("plain".to_string()).to_string(), "plain");
    assert_eq!(HeaderContent::Boolean(true).to_string(), "true");
    assert_eq!(HeaderContent::Boolean(false).to_string(), "false");
    assert_eq!(HeaderContent::Number(4096).to_string(), "4096");
    let list = HeaderContent::List(vec![
        HeaderContent::Text("a".to_string()),
        HeaderContent::Number(1),
    ]);
    assert_eq!(list.to_string(), "a, 1, ");
}

#[test]
fn header_content_bytes() {
    let bytes: &[u8] = &[1, 2, 3];
    assert_eq!(HeaderContent::Bytes(bytes).as_bytes(), vec![1, 2, 3]);
    assert_eq!(HeaderContent::Text("hé".to_string()).as_bytes(), "hé".as_bytes().to_vec());
    assert_eq!(HeaderContent::Boolean(true).as_bytes(), b"true".to_vec());
    assert_eq!(HeaderContent::Number(258).as_bytes(), 258usize.to_be_bytes().to_vec());
    let list = HeaderContent::List(vec![
        HeaderContent::Boolean(false),
        HeaderContent::Bytes(bytes),
    ]);
    assert_eq!(list.as_bytes(), b"false\x01\x02\x03".to_vec());
}

#[test]
fn header_lines() {
    let h = Header(HeaderKey::ContentLength, HeaderContent::Number(3));
    assert_eq!(h.to_string(), "Content-Length: 3");
    assert_eq!(h.as_bytes(), b"Content-Length: 3".to_vec());
    let read = Header::from_line("Host: example.com".to_string());
    assert!(matches!(read.0, HeaderKey::Host));
    assert_eq!(read.1.to_string(), "example.com");
    let read = Header::from_line("X-Pair: a: b".to_string());
    assert_eq!(read.0.to_string(), "X-Pair");
    assert_eq!(read.1.to_string(), "a");
}

#[test]
fn header_line_round_trip() {
    let h = Header(HeaderKey::UserAgent, HeaderContent::Text("curl/8.0".to_string()));
    let back = Header::from_line(h.to_string());
    assert!(matches!(back.0, HeaderKey::UserAgent));
    assert_eq!(back.to_string(), h.to_string());
}

#[test]
fn version_line_start() {
    assert_eq!(Version(1, 1).as_bytes(), b"HTTP/1.1 ".to_vec());
    assert_eq!(Version(2, 0).as_bytes(), b"HTTP/2.0 ".to_vec());
}

#[test]
fn default_response_bytes() {
    let r = Response::default();
    assert_eq!(
        r.as_bytes(),
        b"HTTP/1.1 200 OK\r\nContent-Type: text/plain\r\nContent-Length: 3\r\n\r\npog".to_vec()
    );
    assert_eq!(r.http_code(), HttpCode::OK);
    assert_eq!(r.content(), b"pog");
    assert_eq!(r.version().0, 1);
}

#[test]
fn set_content_updates_the_length() {
    let mut r = Response::from("hello");
    assert_eq!(r.content(), b"hello");
    r.set_content(b"hi!!");
    assert_eq!(
        r.as_bytes(),
        b"HTTP/1.1 200 OK\r\nContent-Type: text/plain\r\nContent-Length: 4\r\n\r\nhi!!".to_vec()
    );
    let bytes: &[u8] = &[7, 8];
    let mut r = Response::from(bytes);
    assert_eq!(r.content(), &[7, 8]);
    r.add_header(Header(HeaderKey::ContentLength, HeaderContent::Number(0)));
    r.set_content(b"");
    assert_eq!(
        r.as_bytes(),
        b"HTTP/1.1 200 OK\r\nContent-Type: text/plain\r\nContent-Length: 0\r\nContent-Length: 0\r\n\r\n"
            .to_vec()
    );
}

#[test]
fn adding_and_removing_headers() {
    let mut r = Response::default();
    r.add_header(Header(HeaderKey::Connection, HeaderContent::Text("close".to_string())));
    assert_eq!(r.headers().len(), 3);
    r.rm_header(0);
    assert_eq!(r.headers().len(), 2);
    assert_eq!(r.headers()[0].to_string(), "Connection: close");
    assert_eq!(r.headers()[1].to_string(), "Content-Length: 3");
}

#[test]
fn requests_become_responses() {
    let headers = vec![Header(HeaderKey::ContentLength, HeaderContent::Number(1))];
    let mut req = Request::new(Method::Post, Rc::from("/game"), Version(1, 0), headers, b"x");
    assert!(matches!(req.method(), Method::Post));
    assert_eq!(&*req.path(), "/game");
    assert_eq!(req.version().1, 0);
    assert_eq!(req.content(), b"x");
    req.set_content(b"xyz");
    assert_eq!(req.headers()[0].to_string(), "Content-Length: 3");
    req.headers_mut().push(Header(HeaderKey::Via, HeaderContent::Boolean(true)));
    assert_eq!(req.headers().len(), 2);
    let r = Response::from(req);
    assert_eq!(
        r.as_bytes(),
        b"HTTP/1.0 200 OK\r\nContent-Length: 3\r\nVia: true\r\n\r\nxyz".to_vec()
    );
}

#[test]
fn status_text_starts_with_the_number() {
    let mut seen = 0;
    for n in 0u16..1000 {
        if let Ok(code) = HttpCode::try_from(n) {
            let text = String::from(&code);
            assert!(text.starts_with(&format!("{} ", n)));
            seen += 1;
        }
    }
    assert_eq!(seen, 62);
}
