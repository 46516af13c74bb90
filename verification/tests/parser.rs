use kalgan::request::Request;

#[test]
fn parser_first_line_tokens() {
    let req = Request::new(b"GET /home HTTP/1.1\r\nHost: example.test\r\n\r\n").unwrap();
    assert_eq!(req.get_method(), &b"GET".to_vec());
    assert_eq!(req.get_uri(), &b"/home".to_vec());
    assert_eq!(req.get_protocol(), &b"HTTP/1.1".to_vec());
}

#[test]
fn parser_decodes_uri() {
    let req = Request::new(b"GET /a%20b%2Fc HTTP/1.1\r\n\r\n").unwrap();
    assert_eq!(req.get_uri(), &b"/a b/c".to_vec());
}

#[test]
fn parser_rejects_short_first_line() {
    assert!(Request::new(b"GET\r\n\r\n").is_none());
    assert!(Request::new(b"GET /home\r\n\r\n").is_none());
    assert!(Request::new(b"").is_none());
}

#[test]
fn parser_extra_tokens_ignored() {
    let req = Request::new(b"GET /home HTTP/1.1 extra junk\r\n\r\n").unwrap();
    assert_eq!(req.get_method(), &b"GET".to_vec());
    assert_eq!(req.get_uri(), &b"/home".to_vec());
    assert_eq!(req.get_protocol(), &b"HTTP/1.1".to_vec());
}

#[test]
fn parser_cookie_mapping() {
    let req =
        Request::new(b"GET / HTTP/1.1\r\nCookie: a=1; b=2; bad\r\nHost: x\r\n\r\n").unwrap();
    let cookies = req.get_cookies();
    assert_eq!(cookies.len(), 2);
    assert_eq!(cookies.get(b"a".as_slice()).unwrap(), &b"1".to_vec());
    assert_eq!(cookies.get(b"b".as_slice()).unwrap(), &b"2".to_vec());
    assert!(cookies.get(b"bad".as_slice()).is_none());
}

#[test]
fn parser_cookie_later_value_wins() {
    let req = Request::new(b"GET / HTTP/1.1\r\nCookie: a=1; a=2\r\n\r\n").unwrap();
    assert_eq!(req.get_cookies().get(b"a".as_slice()).unwrap(), &b"2".to_vec());
}

#[test]
fn parser_headers() {
    let req = Request::new(
        b"GET / HTTP/1.1\r\nHost: dev.foobar.com\r\nUser-Agent: Mozilla/5.0\r\nReferer: /home\r\n\r\n",
    )
    .unwrap();
    assert_eq!(req.get_host(), &b"dev.foobar.com".to_vec());
    assert_eq!(req.get_user_agent(), &b"Mozilla/5.0".to_vec());
    assert_eq!(req.get_referer(), &b"/home".to_vec());
}

#[test]
fn parser_missing_headers_empty() {
    let req = Request::new(b"GET / HTTP/1.1\r\n\r\n").unwrap();
    assert_eq!(req.get_host(), &b"".to_vec());
    assert_eq!(req.get_user_agent(), &b"".to_vec());
    assert_eq!(req.get_referer(), &b"".to_vec());
    assert_eq!(req.get_cookies().len(), 0);
    assert_eq!(req.get_input().len(), 0);
    assert_eq!(req.get_files().len(), 0);
}

#[test]
fn parser_url_encoded_body() {
    let req =
        Request::new(b"POST /form HTTP/1.1\r\nHost: x\r\n\r\nname=John%20Doe&x=1").unwrap();
    let input = req.get_input();
    assert_eq!(input.len(), 2);
    assert_eq!(input.get(b"name".as_slice()).unwrap(), &b"John Doe".to_vec());
    assert_eq!(input.get(b"x".as_slice()).unwrap(), &b"1".to_vec());
}

#[test]
fn parser_body_plus_as_space() {
    let req = Request::new(b"POST /form HTTP/1.1\r\n\r\na=one+two&b=3").unwrap();
    assert_eq!(req.get_input().get(b"a".as_slice()).unwrap(), &b"one two".to_vec());
    assert_eq!(req.get_input().get(b"b".as_slice()).unwrap(), &b"3".to_vec());
}

#[test]
fn parser_body_needs_blank_line() {
    let req = Request::new(b"POST /form HTTP/1.1\r\nHost: x\r\nname=John").unwrap();
    assert_eq!(req.get_input().len(), 0);
}

#[test]
fn parser_raw_kept() {
    let buffer = b"GET / HTTP/1.1\r\nHost: x\r\n\r\n";
    let req = Request::new(buffer).unwrap();
    assert_eq!(req.get_raw(), &buffer.to_vec());
}

#[test]
fn parser_percent_decoding() {
    assert_eq!(Request::parse_url_encoding(b"a%2Fb"), b"a/b".to_vec());
    assert_eq!(Request::parse_url_encoding(b"a%2fb"), b"a/b".to_vec());
    assert_eq!(Request::parse_url_encoding(b"%zz"), b"%zz".to_vec());
    assert_eq!(Request::parse_url_encoding(b"100%"), b"100%".to_vec());
    assert_eq!(Request::parse_url_encoding(b""), b"".to_vec());
}
