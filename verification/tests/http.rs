use deepseek_desktop::http::{
    content_length, is_ready_response, loopback_host, loopback_url, probe_request, response_status_code,
};

#[test]
fn status_code_of_a_response() {
    assert_eq!(response_status_code(b"HTTP/1.1 200 OK\r\nContent-Type: text/html"), Some(200));
    assert_eq!(response_status_code(b"HTTP/1.1 400 Bad Request\r\n"), Some(400));
    assert_eq!(response_status_code(b"HTTP/1.0 204"), Some(204));
    assert_eq!(response_status_code(b"x 65535"), Some(65535));
    assert_eq!(response_status_code(b"x +7 y"), Some(7));
}

#[test]
fn no_status_code() {
    assert_eq!(response_status_code(b""), None);
    assert_eq!(response_status_code(b"HTTP/1.1"), None);
    assert_eq!(response_status_code(b"HTTP/1.1\r\n200 OK"), None);
    assert_eq!(response_status_code(b"\nHTTP/1.1 200 OK"), None);
    assert_eq!(response_status_code(b"HTTP/1.1 OK 200"), None);
    assert_eq!(response_status_code(b"HTTP/1.1 65536"), None);
    assert_eq!(response_status_code(b"HTTP/1.1 200 \xff"), None);
    assert_eq!(response_status_code("HTTP/1.1 200 \u{e9}".as_bytes()), Some(200));
    let cut = "HTTP/1.1 200 \u{e9}".as_bytes();
    assert_eq!(response_status_code(&cut[..cut.len() - 1]), None);
}

#[test]
fn every_code_is_read_back() {
    for code in [0u16, 99, 199, 200, 299, 300, 404, 503, 65535] {
        for after in ["", " ", "\n", "\r\n", " OK\r\nServer: x\r\n\r\n"] {
            let response = format!("HTTP/1.1 {code}{after}");
            assert_eq!(response_status_code(response.as_bytes()), Some(code));
            assert_eq!(is_ready_response(response.as_bytes()), (200..300).contains(&code));
        }
    }
}

#[test]
fn request_and_addresses() {
    assert_eq!(loopback_host(4173), "127.0.0.1:4173");
    assert_eq!(loopback_url(65535), "http://127.0.0.1:65535");
    assert_eq!(
        probe_request(&loopback_host(80)),
        "GET / HTTP/1.1\r\nHost: 127.0.0.1:80\r\nConnection: close\r\n\r\n"
    );
}

#[test]
fn announced_length_of_a_download() {
    assert_eq!(content_length(None), None);
    assert_eq!(content_length(Some("1024")), Some(1024));
    assert_eq!(content_length(Some("0")), Some(0));
    assert_eq!(content_length(Some("")), None);
    assert_eq!(content_length(Some("12 ")), None);
    assert_eq!(content_length(Some("18446744073709551616")), None);
}
