use synalux_relay::http_status::{is_success, status_line};
use synalux_relay::ipv4::{has_private_prefix_text, is_private, parse_ipv4, render_ipv4};
use synalux_relay::printer::{
    check_http_reply, check_http_target, check_tcp_target, http_target_from_parts,
    is_allowed_host, is_allowed_port, select_headers, HttpMethod, UrlHost, UrlParseError,
};
use synalux_relay::text::{contains_text, decimal, find_char, same_text, starts_with};

#[test]
fn private_hosts_are_allowed() {
    assert!(is_allowed_host("192.168.1.50"));
    assert!(is_allowed_host("10.0.0.7"));
    assert!(is_allowed_host("172.16.4.2"));
    assert!(is_allowed_host("172.31.255.1"));
}

#[test]
fn public_and_loopback_hosts_are_refused() {
    assert!(!is_allowed_host("127.0.0.1"));
    assert!(!is_allowed_host("0.0.0.0"));
    assert!(!is_allowed_host("localhost"));
    assert!(!is_allowed_host("::1"));
    assert!(!is_allowed_host("8.8.8.8"));
    assert!(!is_allowed_host("172.15.0.1"));
    assert!(!is_allowed_host("172.32.0.1"));
    assert!(!is_allowed_host("192.169.0.1"));
    assert!(!is_allowed_host(""));
    assert!(!is_allowed_host("pos.synalux.ai"));
}

#[test]
fn names_and_malformed_addresses_are_refused() {
    assert!(!is_allowed_host("10.evil.example"));
    assert!(!is_allowed_host("192.168."));
    assert!(!is_allowed_host("10.0.0"));
    assert!(!is_allowed_host("10.0.0.1.5"));
    assert!(!is_allowed_host("010.0.0.1"));
    assert!(!is_allowed_host("10.0.0.256"));
    assert!(!is_allowed_host("172.16.0.01"));
    assert!(!is_allowed_host(" 10.0.0.1"));
    assert!(!is_allowed_host("10.0.0.1 "));
    assert!(!is_allowed_host("::ffff:192.168.1.1"));
    assert!(!is_allowed_host("fd00::1"));
    assert!(!is_allowed_host("1000.0.0.1"));
}

#[test]
fn private_ranges_edges() {
    assert!(is_allowed_host("10.0.0.0"));
    assert!(is_allowed_host("10.255.255.255"));
    assert!(is_allowed_host("192.168.0.0"));
    assert!(is_allowed_host("192.168.255.255"));
    assert!(!is_allowed_host("192.167.255.255"));
    assert!(!is_allowed_host("11.0.0.1"));
    assert!(!is_allowed_host("9.255.255.255"));
}

#[test]
fn ipv4_text_read_and_written() {
    assert_eq!(parse_ipv4("192.168.1.50"), Some((192, 168, 1, 50)));
    assert_eq!(parse_ipv4("0.0.0.0"), Some((0, 0, 0, 0)));
    assert_eq!(parse_ipv4("255.255.255.255"), Some((255, 255, 255, 255)));
    assert_eq!(parse_ipv4("1.02.3.4"), None);
    assert_eq!(parse_ipv4("1..3.4"), None);
    assert_eq!(parse_ipv4(""), None);
    assert_eq!(render_ipv4((172, 16, 0, 9)), "172.16.0.9");
    assert!(is_private((172, 31, 0, 0)));
    assert!(has_private_prefix_text("10.evil.com"));
    assert!(has_private_prefix_text("172.16.x"));
    assert!(has_private_prefix_text("192.168.1.1"));
    assert!(!has_private_prefix_text("172.32.0.1"));
    assert!(!has_private_prefix_text("192.169.0.1"));
    assert!(!has_private_prefix_text("10"));
    assert!(!is_private((172, 32, 0, 0)));
    for a in [0u8, 9, 10, 11, 127, 172, 192, 255] {
        for b in [0u8, 15, 16, 31, 32, 168, 255] {
            let q = (a, b, 7, 200);
            let text = format!("{}.{}.7.200", a, b);
            let private = a == 10 || (a == 172 && (16..=31).contains(&b)) || (a == 192 && b == 168);
            assert_eq!(render_ipv4(q), text);
            assert_eq!(parse_ipv4(&text), Some(q));
            assert_eq!(is_allowed_host(&text), private);
        }
    }
}

#[test]
fn printer_ports() {
    assert!(is_allowed_port(9100));
    assert!(is_allowed_port(6101));
    assert!(is_allowed_port(515));
    assert!(is_allowed_port(9101));
    assert!(!is_allowed_port(80));
    assert!(!is_allowed_port(22));
    assert!(!is_allowed_port(9102));
}

#[test]
fn tcp_target_errors() {
    assert_eq!(check_tcp_target("192.168.1.50", 9100), Ok(()));
    assert_eq!(check_tcp_target("8.8.8.8", 9100), Err("Host 8.8.8.8 not allowed".to_string()));
    assert_eq!(check_tcp_target("192.168.1.50", 22), Err("Port 22 not allowed".to_string()));
    // The host is checked before the port.
    assert_eq!(check_tcp_target("localhost", 22), Err("Host localhost not allowed".to_string()));
    // A host with a private prefix that is no address cannot be made into a socket address.
    let invalid = Err("Invalid address: invalid socket address syntax".to_string());
    assert_eq!(check_tcp_target("10.evil.com", 9100), invalid);
    assert_eq!(check_tcp_target("10.0.0.01", 9100), invalid);
    assert_eq!(check_tcp_target("192.168.1.300", 9100), invalid);
    assert_eq!(check_tcp_target("172.16.", 515), invalid);
    // The port is checked before the address is read.
    assert_eq!(check_tcp_target("10.evil.com", 22), Err("Port 22 not allowed".to_string()));
    assert_eq!(check_tcp_target("172.15.0.1", 9100), Err("Host 172.15.0.1 not allowed".to_string()));
    assert_eq!(check_tcp_target("172.31.0.1", 9101), Ok(()));
}

#[test]
fn http_target_accepts_private_http() {
    assert_eq!(check_http_target("http://192.168.1.60/StarWebPRNT/SendMessage", "POST"), Ok(HttpMethod::Post));
    assert_eq!(check_http_target("http://10.1.2.3:8080/print", "get"), Ok(HttpMethod::Get));
    assert_eq!(check_http_target("http://172.20.0.9/x", "Post"), Ok(HttpMethod::Post));
    // The URL parser reads other IPv4 notations as the address they denote.
    assert_eq!(check_http_target("http://0xa.0.0.1/", "POST"), Ok(HttpMethod::Post));
}

#[test]
fn http_target_refusals() {
    assert_eq!(
        check_http_target("https://192.168.1.60/print", "POST"),
        Err("Only http:// allowed for local printers".to_string())
    );
    assert_eq!(
        check_http_target("http://example.com/print", "POST"),
        Err("Host example.com not allowed".to_string())
    );
    assert_eq!(
        check_http_target("http://10.evil.com/print", "POST"),
        Err("Host 10.evil.com not allowed".to_string())
    );
    assert_eq!(
        check_http_target("http://[fd00::1]/print", "POST"),
        Err("Host [fd00::1] not allowed".to_string())
    );
    assert_eq!(
        check_http_target("http://127.0.0.1/print", "POST"),
        Err("Host 127.0.0.1 not allowed".to_string())
    );
    assert_eq!(
        check_http_target("http://192.168.1.60/print", "PUT"),
        Err("Unsupported method: PUT".to_string())
    );
    assert_eq!(
        check_http_target("http://192.168.1.60/print", "delete"),
        Err("Unsupported method: delete".to_string())
    );
    assert_eq!(
        check_http_target("not a url", "POST"),
        Err("Invalid URL: relative URL without a base".to_string())
    );
    assert_eq!(
        check_http_target("http://192.168.1.60:99999/", "POST"),
        Err("Invalid URL: invalid port number".to_string())
    );
    // A URL without a host is judged with an empty host.
    assert_eq!(check_http_target("mailto:a@b.c", "POST"), Err("Host  not allowed".to_string()));
}

#[test]
fn http_target_from_given_parts() {
    let parts = Ok(("http".to_string(), Some("192.168.0.2".to_string()), Some(UrlHost::Ipv4([192, 168, 0, 2]))));
    assert_eq!(http_target_from_parts(parts, "get", "GET"), Ok(HttpMethod::Get));
    let parts = Ok(("ftp".to_string(), Some("192.168.0.2".to_string()), Some(UrlHost::Ipv4([192, 168, 0, 2]))));
    assert_eq!(
        http_target_from_parts(parts, "GET", "GET"),
        Err("Only http:// allowed for local printers".to_string())
    );
    // A domain host is refused whatever its text.
    let parts = Ok(("http".to_string(), Some("10.evil.com".to_string()), Some(UrlHost::Domain)));
    assert_eq!(
        http_target_from_parts(parts, "POST", "POST"),
        Err("Host 10.evil.com not allowed".to_string())
    );
    let parts = Ok(("http".to_string(), Some("8.8.8.8".to_string()), Some(UrlHost::Ipv4([8, 8, 8, 8]))));
    assert_eq!(
        http_target_from_parts(parts, "POST", "POST"),
        Err("Host 8.8.8.8 not allowed".to_string())
    );
    assert_eq!(
        http_target_from_parts(Err(UrlParseError::EmptyHost), "GET", "GET"),
        Err("Invalid URL: empty host".to_string())
    );
    // The method is judged by its upper-cased form; the error shows it as given.
    let parts = Ok(("http".to_string(), Some("10.0.0.1".to_string()), Some(UrlHost::Ipv4([10, 0, 0, 1]))));
    assert_eq!(
        http_target_from_parts(parts, "patch", "PATCH"),
        Err("Unsupported method: patch".to_string())
    );
}

#[test]
fn only_text_headers_are_sent() {
    let entries = vec![
        ("Content-Type".to_string(), Some("text/xml".to_string())),
        ("X-Count".to_string(), None),
        ("SOAPAction".to_string(), Some("\"\"".to_string())),
    ];
    let kept = select_headers(&entries);
    assert_eq!(
        kept,
        vec![
            ("Content-Type".to_string(), "text/xml".to_string()),
            ("SOAPAction".to_string(), "\"\"".to_string()),
        ]
    );
    assert!(select_headers(&Vec::new()).is_empty());
}

#[test]
fn http_replies() {
    assert_eq!(check_http_reply(200), Ok(()));
    assert_eq!(check_http_reply(204), Ok(()));
    assert_eq!(check_http_reply(404), Err("HTTP 404 Not Found".to_string()));
    assert_eq!(check_http_reply(500), Err("HTTP 500 Internal Server Error".to_string()));
    assert_eq!(check_http_reply(302), Err("HTTP 302 Found".to_string()));
}

#[test]
fn status_lines() {
    assert_eq!(status_line(200), "200 OK");
    assert_eq!(status_line(418), "418 I'm a teapot");
    assert_eq!(status_line(599), "599 <unknown status code>");
    assert_eq!(status_line(42), "42 <unknown status code>");
    assert!(is_success(200));
    assert!(is_success(299));
    assert!(!is_success(300));
    assert!(!is_success(199));
}

#[test]
fn text_helpers() {
    assert_eq!(decimal(0), "0");
    assert_eq!(decimal(9100), "9100");
    assert_eq!(decimal(u64::MAX), "18446744073709551615");
    assert!(starts_with("192.168.1.1", "192.168."));
    assert!(!starts_with("192.16", "192.168."));
    assert!(contains_text("error: no rows returned", "no rows"));
    assert!(!contains_text("no row", "no rows"));
    assert!(contains_text("abc", ""));
    assert_eq!(find_char("a|b|c", '|'), Some(1));
    assert_eq!(find_char("abc", '|'), None);
    assert_eq!(find_char("é|x", '|'), Some(1));
    assert!(same_text("ab", "ab"));
    assert!(!same_text("ab", "abc"));
}
