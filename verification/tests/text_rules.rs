use watch_watch::text::{decimal_text, http_body, join_with, trim_process_name};

#[test]
fn join_matches_std_join() {
    let parts = vec!["a:9092".to_string(), "b:9092".to_string(), "c:9092".to_string()];
    assert_eq!(join_with(&parts, ","), parts.join(","));
    assert_eq!(join_with(&vec![], ","), "");
    assert_eq!(join_with(&vec!["only".to_string()], ","), "only");
}

#[test]
fn decimal_numbers() {
    assert_eq!(decimal_text(0), "0");
    assert_eq!(decimal_text(8092), "8092");
    assert_eq!(decimal_text(u32::MAX), "4294967295");
}

#[test]
fn trimming_process_names() {
    assert_eq!(trim_process_name("sshd\n"), "sshd");
    assert_eq!(trim_process_name("  \t nginx \u{3000}"), "nginx");
    assert_eq!(trim_process_name("\n"), "");
    assert_eq!(trim_process_name("a b"), "a b");
}

#[test]
fn http_bodies() {
    assert_eq!(http_body("HTTP/1.1 200 OK\r\nA: b\r\n\r\n{\"x\":1}"), Some("{\"x\":1}".to_string()));
    assert_eq!(http_body("HTTP/1.1 200 OK\r\n\r\nbody\r\n\r\nmore"), Some("body\r\n\r\nmore".to_string()));
    assert_eq!(http_body("HTTP/1.1 200 OK\r\n"), None);
    assert_eq!(http_body("\r\n\r\n"), Some(String::new()));
}
