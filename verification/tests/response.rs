use http_core::response::HttpResponse;

#[test]
fn not_found_is_a_bare_status_line() {
    assert_eq!(HttpResponse::NotFound.to_string(), "HTTP/1.1 404 Not Found\r\n\r\n");
}

#[test]
fn created_is_a_bare_status_line() {
    assert_eq!(HttpResponse::Created.to_string(), "HTTP/1.1 201 Created\r\n\r\n");
}

#[test]
fn success_without_body_has_no_headers() {
    let message = HttpResponse::Success(None).to_string();
    assert_eq!(message, "HTTP/1.1 200 OK\r\n\r\n");
    assert!(!message.contains("Content-Length"));
}

#[test]
fn success_with_body_is_plain_text() {
    assert_eq!(
        HttpResponse::Success(Some("abc".to_string())).to_string(),
        "HTTP/1.1 200 OK\r\nContent-Type: text/plain\r\nContent-Length: 3\r\n\r\nabc"
    );
}

#[test]
fn success_with_empty_body_has_length_zero() {
    assert_eq!(
        HttpResponse::Success(Some(String::new())).to_string(),
        "HTTP/1.1 200 OK\r\nContent-Type: text/plain\r\nContent-Length: 0\r\n\r\n"
    );
}

#[test]
fn file_is_an_octet_stream() {
    assert_eq!(
        HttpResponse::File("Hello, World!".to_string()).to_string(),
        "HTTP/1.1 200 OK\r\nContent-Type: application/octet-stream\r\nContent-Length: 13\r\n\r\nHello, World!"
    );
}

#[test]
fn content_length_counts_bytes_not_characters() {
    let body = "h\u{e9}llo \u{4e16}\u{754c} \u{1f600}";
    assert_eq!(body.chars().count(), 10);
    assert_eq!(body.len(), 18);
    assert_eq!(
        HttpResponse::Success(Some(body.to_string())).to_string(),
        format!("HTTP/1.1 200 OK\r\nContent-Type: text/plain\r\nContent-Length: 18\r\n\r\n{}", body)
    );
    assert_eq!(
        HttpResponse::File(body.to_string()).to_string(),
        format!(
            "HTTP/1.1 200 OK\r\nContent-Type: application/octet-stream\r\nContent-Length: 18\r\n\r\n{}",
            body
        )
    );
}

#[test]
fn body_is_sent_as_it_is() {
    let body = "line one\r\nline two\r\n\r\n";
    let message = HttpResponse::File(body.to_string()).to_string();
    assert!(message.ends_with(body));
    assert_eq!(
        message,
        "HTTP/1.1 200 OK\r\nContent-Type: application/octet-stream\r\nContent-Length: 22\r\n\r\nline one\r\nline two\r\n\r\n"
    );
}

#[test]
fn long_body_has_its_length_in_full() {
    let body = "x".repeat(12345);
    let message = HttpResponse::Success(Some(body.clone())).to_string();
    assert!(message.starts_with("HTTP/1.1 200 OK\r\nContent-Type: text/plain\r\nContent-Length: 12345\r\n\r\n"));
    assert!(message.ends_with(&body));
}

#[test]
fn read_outcome_becomes_file_or_not_found() {
    assert_eq!(
        HttpResponse::after_read(Some("content".to_string())),
        HttpResponse::File("content".to_string())
    );
    assert_eq!(HttpResponse::after_read(Some(String::new())), HttpResponse::File(String::new()));
    assert_eq!(HttpResponse::after_read(None), HttpResponse::NotFound);
}

#[test]
fn write_outcome_becomes_created_or_not_found() {
    assert_eq!(HttpResponse::after_write(true), HttpResponse::Created);
    assert_eq!(HttpResponse::after_write(false), HttpResponse::NotFound);
}
