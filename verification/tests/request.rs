use http_core::request::Request;

fn lines(lines: &[&str]) -> Vec<String> {
    lines.iter().map(|line| line.to_string()).collect()
}

#[test]
fn request_line_gives_method_and_path() {
    let request = Request::new(lines(&["GET /echo/abc HTTP/1.1", "Host: localhost:4221"]), String::new());
    let request = request.expect("a request line was given");
    assert_eq!(request.method, "GET");
    assert_eq!(request.path, "/echo/abc");
    assert_eq!(request.user_agent, None);
    assert_eq!(request.content_length, 0);
    assert_eq!(request.body, "");
}

#[test]
fn post_request_keeps_its_body() {
    let request = Request::new(
        lines(&["POST /files/a.txt HTTP/1.1", "Content-Length: 5"]),
        "hello".to_string(),
    )
    .expect("a request line was given");
    assert_eq!(
        request,
        Request {
            method: "POST".to_string(),
            path: "/files/a.txt".to_string(),
            user_agent: None,
            content_length: 5,
            body: "hello".to_string(),
        }
    );
}

#[test]
fn no_request_line_is_no_request() {
    assert_eq!(Request::new(lines(&[]), String::new()), None);
    assert_eq!(Request::new(lines(&[""]), String::new()), None);
    assert_eq!(Request::new(lines(&["Host: localhost", "User-Agent: curl/8.0"]), String::new()), None);
    assert_eq!(Request::new(lines(&["PUT /x HTTP/1.1"]), String::new()), None);
    assert_eq!(Request::new(lines(&["get / HTTP/1.1"]), String::new()), None);
}

#[test]
fn request_line_needs_the_space_after_the_method() {
    assert_eq!(Request::new(lines(&["GET"]), String::new()), None);
    assert_eq!(Request::new(lines(&["POST"]), String::new()), None);
    assert_eq!(Request::new(lines(&["GETTING /x HTTP/1.1"]), String::new()), None);
    let request = Request::new(lines(&["GET "]), String::new()).expect("`GET ` is a request line");
    assert_eq!(request.method, "GET");
    assert_eq!(request.path, "");
}

#[test]
fn request_line_is_the_first_that_fits() {
    let request = Request::new(
        lines(&["Host: x", "POST /first HTTP/1.1", "GET /second HTTP/1.1"]),
        String::new(),
    )
    .expect("a request line was given");
    assert_eq!(request.method, "POST");
    assert_eq!(request.path, "/first");
}

#[test]
fn path_ends_at_the_next_space() {
    let request = Request::new(lines(&["GET /a b c"]), String::new()).expect("a request line");
    assert_eq!(request.path, "/a");
    let request = Request::new(lines(&["GET  /a"]), String::new()).expect("a request line");
    assert_eq!(request.path, "");
    let request = Request::new(lines(&["GET /alone"]), String::new()).expect("a request line");
    assert_eq!(request.path, "/alone");
}

#[test]
fn user_agent_is_the_second_word_of_its_line() {
    let request = Request::new(
        lines(&["GET /user-agent HTTP/1.1", "User-Agent: curl/8.0"]),
        String::new(),
    )
    .expect("a request line was given");
    assert_eq!(request.user_agent, Some("curl/8.0".to_string()));

    let request = Request::new(
        lines(&["GET / HTTP/1.1", "User-Agent: Mozilla/5.0 (X11; Linux)"]),
        String::new(),
    )
    .expect("a request line was given");
    assert_eq!(request.user_agent, Some("Mozilla/5.0".to_string()));
}

#[test]
fn user_agent_without_a_second_word_is_absent() {
    let request = Request::new(lines(&["GET / HTTP/1.1", "User-Agent:"]), String::new())
        .expect("a request line was given");
    assert_eq!(request.user_agent, None);
    let request = Request::new(lines(&["GET / HTTP/1.1", "User-Agent:curl/8.0"]), String::new())
        .expect("a request line was given");
    assert_eq!(request.user_agent, None);
    let request = Request::new(lines(&["GET / HTTP/1.1", "User-Agent: "]), String::new())
        .expect("a request line was given");
    assert_eq!(request.user_agent, Some(String::new()));
}

#[test]
fn header_names_are_matched_by_case() {
    let request = Request::new(
        lines(&["GET / HTTP/1.1", "user-agent: curl/8.0", "content-length: 7"]),
        String::new(),
    )
    .expect("a request line was given");
    assert_eq!(request.user_agent, None);
    assert_eq!(request.content_length, 0);
}

#[test]
fn first_header_of_a_name_counts() {
    let request = Request::new(
        lines(&["GET / HTTP/1.1", "User-Agent: one", "User-Agent: two", "Content-Length: 1", "Content-Length: 2"]),
        String::new(),
    )
    .expect("a request line was given");
    assert_eq!(request.user_agent, Some("one".to_string()));
    assert_eq!(request.content_length, 1);
}

#[test]
fn content_length_is_read_as_a_number() {
    let with = |header: &str| {
        Request::new(lines(&["GET / HTTP/1.1", header]), String::new())
            .expect("a request line was given")
            .content_length
    };
    assert_eq!(with("Content-Length: 0"), 0);
    assert_eq!(with("Content-Length: 5"), 5);
    assert_eq!(with("Content-Length: 1024"), 1024);
    assert_eq!(with("Content-Length: +12"), 12);
    assert_eq!(with("Content-Length: 007"), 7);
    assert_eq!(with(&format!("Content-Length: {}", usize::MAX)), usize::MAX);
}

#[test]
fn content_length_defaults_to_zero() {
    let with = |header: &str| {
        Request::new(lines(&["GET / HTTP/1.1", header]), String::new())
            .expect("a request line was given")
            .content_length
    };
    assert_eq!(with("Host: x"), 0);
    assert_eq!(with("Content-Length:"), 0);
    assert_eq!(with("Content-Length: "), 0);
    assert_eq!(with("Content-Length: abc"), 0);
    assert_eq!(with("Content-Length: -1"), 0);
    assert_eq!(with("Content-Length: 12x"), 0);
    assert_eq!(with("Content-Length: +"), 0);
    assert_eq!(with("Content-Length:  5"), 0);
    assert_eq!(with(&format!("Content-Length: {}0", usize::MAX)), 0);
    assert_eq!(with("Content-Length: 340282366920938463463374607431768211456"), 0);
}

#[test]
fn message_is_cut_at_the_first_empty_line() {
    let request = Request::parse("POST /files/n HTTP/1.1\r\nContent-Length: 9\r\n\r\nab\r\n\r\ncd\n")
        .expect("a whole message was given");
    assert_eq!(request.method, "POST");
    assert_eq!(request.path, "/files/n");
    assert_eq!(request.content_length, 9);
    assert_eq!(request.body, "ab\r\n\r\ncd\n");
}

#[test]
fn message_without_an_empty_line_holds_no_request() {
    assert_eq!(Request::parse(""), None);
    assert_eq!(Request::parse("GET / HTTP/1.1"), None);
    assert_eq!(Request::parse("GET / HTTP/1.1\r\n"), None);
    assert_eq!(Request::parse("GET / HTTP/1.1\n\n"), None);
    assert_eq!(Request::parse("GET / HTTP/1.1\r\nHost: x\r\n\r"), None);
}

#[test]
fn message_without_a_request_line_holds_no_request() {
    assert_eq!(Request::parse("\r\n\r\n"), None);
    assert_eq!(Request::parse("Host: x\r\n\r\nGET / HTTP/1.1"), None);
    assert_eq!(Request::parse("DELETE / HTTP/1.1\r\n\r\n"), None);
}

#[test]
fn header_lines_end_in_cr_lf_only() {
    let request = Request::parse("GET /a HTTP/1.1\nUser-Agent: x\r\nUser-Agent: y\r\n\r\n")
        .expect("a whole message was given");
    assert_eq!(request.path, "/a");
    assert_eq!(request.user_agent, Some("y".to_string()));
}

#[test]
fn from_lines_reads_lines_given_as_characters() {
    let first: Vec<char> = "POST /files/a HTTP/1.1".chars().collect();
    let second: Vec<char> = "User-Agent: agent/1 extra".chars().collect();
    let third: Vec<char> = "Content-Length: 3".chars().collect();
    let request = Request::from_lines(&[&first, &second, &third], "abc".to_string())
        .expect("a request line was given");
    assert_eq!(
        request,
        Request {
            method: "POST".to_string(),
            path: "/files/a".to_string(),
            user_agent: Some("agent/1".to_string()),
            content_length: 3,
            body: "abc".to_string(),
        }
    );
    assert_eq!(Request::from_lines(&[&second, &third], String::new()), None);
}

#[test]
fn new_and_parse_agree() {
    let head = ["GET /echo/x HTTP/1.1", "Host: localhost", "User-Agent: a b", "Content-Length: 2"];
    let message = format!("{}\r\n\r\nhi", head.join("\r\n"));
    assert_eq!(Request::parse(&message), Request::new(lines(&head), "hi".to_string()));
}
