use kalgan::request::Request;

fn multipart_request() -> Vec<u8> {
    let mut body = String::new();
    body.push_str("POST /upload HTTP/1.1\r\n");
    body.push_str("Host: x\r\n");
    body.push_str("Content-Type: multipart/form-data; boundary=XBOUND\r\n");
    body.push_str("\r\n");
    body.push_str("--XBOUND\r\n");
    body.push_str("Content-Disposition: form-data; name=\"field1\"\r\n");
    body.push_str("\r\n");
    body.push_str("value%201\r\n");
    body.push_str("--XBOUND\r\n");
    body.push_str("Content-Disposition: form-data; name=\"file1\"; filename=\"a.txt\"\r\n");
    body.push_str("Content-Type: text/plain\r\n");
    body.push_str("\r\n");
    body.push_str("AAAA\r\n");
    body.push_str("--XBOUND\r\n");
    body.push_str("Content-Disposition: form-data; name=\"file2\"; filename=\"b.bin\"\r\n");
    body.push_str("Content-Type: application/octet-stream\r\n");
    body.push_str("\r\n");
    body.push_str("B1B2B3\r\n");
    body.push_str("--XBOUND--\r\n");
    body.into_bytes()
}

#[test]
fn multipart_counts() {
    let req = Request::new(&multipart_request()).unwrap();
    assert_eq!(req.get_files().len(), 2);
    assert_eq!(req.get_input().len(), 1);
}

#[test]
fn multipart_field_value_decoded() {
    let req = Request::new(&multipart_request()).unwrap();
    assert_eq!(
        req.get_input().get(b"field1".as_slice()).unwrap(),
        &b"value 1".to_vec()
    );
}

#[test]
fn multipart_file_contents_exact() {
    let req = Request::new(&multipart_request()).unwrap();
    let f1 = req.get_files().get(b"file1".as_slice()).unwrap();
    assert_eq!(f1.filename, b"a.txt".to_vec());
    assert_eq!(f1.content_type, b"text/plain".to_vec());
    assert_eq!(f1.content, b"AAAA".to_vec());
    let f2 = req.get_files().get(b"file2".as_slice()).unwrap();
    assert_eq!(f2.filename, b"b.bin".to_vec());
    assert_eq!(f2.content_type, b"application/octet-stream".to_vec());
    assert_eq!(f2.content, b"B1B2B3".to_vec());
}

#[test]
fn multipart_empty_filename_skipped() {
    let mut body = String::new();
    body.push_str("POST /upload HTTP/1.1\r\n");
    body.push_str("Content-Type: multipart/form-data; boundary=XBOUND\r\n");
    body.push_str("\r\n");
    body.push_str("--XBOUND\r\n");
    body.push_str("Content-Disposition: form-data; name=\"empty\"; filename=\"\"\r\n");
    body.push_str("Content-Type: application/octet-stream\r\n");
    body.push_str("\r\n");
    body.push_str("\r\n");
    body.push_str("--XBOUND--\r\n");
    let req = Request::new(body.as_bytes()).unwrap();
    assert_eq!(req.get_files().len(), 0);
    assert_eq!(req.get_input().len(), 0);
}

#[test]
fn multipart_without_boundary_attribute() {
    let mut body = String::new();
    body.push_str("POST /upload HTTP/1.1\r\n");
    body.push_str("Content-Type: multipart/form-data;\r\n");
    body.push_str("\r\n");
    body.push_str("Content-Disposition: form-data; name=\"field1\"\r\n");
    body.push_str("\r\n");
    body.push_str("value1\r\n");
    let req = Request::new(body.as_bytes()).unwrap();
    assert_eq!(req.get_files().len(), 0);
    assert_eq!(req.get_input().len(), 0);
}

#[test]
fn multipart_binary_content_kept() {
    let mut bytes: Vec<u8> = Vec::new();
    bytes.extend_from_slice(b"POST /u HTTP/1.1\r\n");
    bytes.extend_from_slice(b"Content-Type: multipart/form-data; boundary=ZZ\r\n\r\n");
    bytes.extend_from_slice(b"--ZZ\r\n");
    bytes.extend_from_slice(b"Content-Disposition: form-data; name=\"f\"; filename=\"raw\"\r\n");
    bytes.extend_from_slice(b"Content-Type: application/octet-stream\r\n\r\n");
    bytes.extend_from_slice(&[0u8, 1, 2, 255, 254]);
    bytes.extend_from_slice(b"\r\n--ZZ--\r\n");
    let req = Request::new(&bytes).unwrap();
    let f = req.get_files().get(b"f".as_slice()).unwrap();
    assert_eq!(f.content, vec![0u8, 1, 2, 255, 254]);
}
