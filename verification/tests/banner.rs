use deepseek_desktop::banner::parse_ready_url;
use deepseek_desktop::http::loopback_url;

fn url(line: &str) -> Option<String> {
    parse_ready_url(line)
}

#[test]
fn banner_gives_its_url() {
    assert_eq!(url("dsh web: http://127.0.0.1:4173"), Some("http://127.0.0.1:4173".to_string()));
    assert_eq!(url("dsh web: http://localhost:80\n"), Some("http://localhost:80".to_string()));
    assert_eq!(
        url("dsh web: http://127.0.0.1:5000 (LAN: http://10.0.0.2:5000)"),
        Some("http://127.0.0.1:5000".to_string())
    );
}

#[test]
fn banner_blanks_before_the_url_are_skipped() {
    assert_eq!(url("dsh web:   \t http://127.0.0.1:1\r\n"), Some("http://127.0.0.1:1".to_string()));
    assert_eq!(url("dsh web: \u{3000}http://127.0.0.1:1\u{a0}x"), Some("http://127.0.0.1:1".to_string()));
}

#[test]
fn other_lines_give_no_url() {
    assert_eq!(url(""), None);
    assert_eq!(url("dsh web:"), None);
    assert_eq!(url("dsh web: "), None);
    assert_eq!(url("dsh web:http://127.0.0.1:1"), None);
    assert_eq!(url(" dsh web: http://127.0.0.1:1"), None);
    assert_eq!(url("dsh web: https://127.0.0.1:1"), None);
    assert_eq!(url("dsh web: http://127.0.0.1"), None);
    assert_eq!(url("dsh web: http://10.0.0.2:5000"), None);
    assert_eq!(url("dsh web: (LAN: http://127.0.0.1:1)"), None);
}

#[test]
fn banner_for_a_port_announces_that_port() {
    for port in [0u16, 7, 80, 4173, 65535] {
        let line = format!("dsh web: {} (LAN: …)", loopback_url(port));
        assert_eq!(url(&line), Some(format!("http://127.0.0.1:{port}")));
    }
}
