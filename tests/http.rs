use static_httpd::handler::{get, CloseReason, GetRequest, Handler, Lookup, Next};
use static_httpd::line::{read_line, LineReader, LineStep};
use static_httpd::request::{parse_header_line, parse_request_line, split_header_line, RequestHeader};
use static_httpd::resolve::{join_path, request_segments, resolve};
use static_httpd::response::{send_failed, send_ok, Body, HttpStatus, ResponseHeader};

const NOT_FOUND_PAGE: &str = "<!DOCTYPE html><head><title>404 NOT FOUND</title></head><body><h1>404 NOT FOUND!</h1></body></html>";
const SERVER_ERROR_PAGE: &str = "<!DOCTYPE html><head><title>500 INTERNAL SERVER ERROR</title></head><body><h1>500 INTERNAL SERVER ERROR!</h1></body></html>";

fn line(s: &str) -> Result<Option<String>, static_httpd::error::HttpError> {
    Ok(if s.is_empty() { None } else { Some(s.to_string()) })
}

#[test]
fn read_line_gives_the_request_line_then_the_empty_line() {
    let bytes = b"GET / HTTP/1.0\r\n\r\n";
    let (first, next) = read_line(bytes, 0).ok().unwrap();
    assert_eq!(first, Some("GET / HTTP/1.0".to_string()));
    assert_eq!(next, 16);
    let (second, end) = read_line(bytes, next).ok().unwrap();
    assert_eq!(second, None);
    assert_eq!(end, bytes.len());
}

#[test]
fn read_line_rejects_cr_without_lf() {
    let e = read_line(b"X\rY", 0).err().unwrap();
    assert_eq!(e.kind, "protocol");
}

#[test]
fn read_line_reports_the_end_of_the_stream() {
    assert_eq!(read_line(b"GET /", 0).err().unwrap().kind, "io");
    assert_eq!(read_line(b"GET /\r", 0).err().unwrap().kind, "io");
    assert_eq!(read_line(b"", 0).err().unwrap().kind, "io");
}

#[test]
fn line_reader_takes_one_byte_at_a_time() {
    let mut rd = LineReader::new();
    for b in b"Host: x" {
        assert!(matches!(rd.feed(*b), LineStep::More));
    }
    assert!(matches!(rd.feed(b'\r'), LineStep::More));
    match rd.feed(b'\n') {
        LineStep::Line(l) => assert_eq!(l, Some("Host: x".to_string())),
        _ => panic!("a line was due"),
    }
    assert!(matches!(rd.feed(b'\r'), LineStep::More));
    assert!(matches!(rd.feed(b'Y'), LineStep::Malformed));
}

#[test]
fn request_line_gives_method_and_target() {
    let (m, t) = parse_request_line("GET /a/b?x=1 HTTP/1.0").ok().unwrap();
    assert_eq!(m, "GET");
    assert_eq!(t, "/a/b?x=1");
    let (m, t) = parse_request_line("  get\t/  ").ok().unwrap();
    assert_eq!(m, "get");
    assert_eq!(t, "/");
    assert_eq!(parse_request_line("GET").err().unwrap().kind, "protocol");
    assert_eq!(parse_request_line("   ").err().unwrap().kind, "protocol");
}

#[test]
fn header_lines_split_on_the_first_colon() {
    let (n, v) = parse_header_line("Host: localhost:8080 ").ok().unwrap();
    assert_eq!(n, "host");
    assert_eq!(v, "localhost:8080");
    assert_eq!(parse_header_line("no colon here").err().unwrap().kind, "protocol");
}

#[test]
fn later_headers_replace_earlier_ones() {
    let mut h = RequestHeader::new();
    assert!(h.add_line("Accept: text/plain").is_ok());
    assert!(h.add_line("ACCEPT: text/css, text/html").is_ok());
    assert!(h.add_line("broken").is_err());
    assert_eq!(h.get("accept"), Some("text/css, text/html".to_string()));
    assert_eq!(h.get("Accept"), None);
    assert_eq!(h.get_first_accept(), Some("text/css".to_string()));
    assert_eq!(RequestHeader::new().get_first_accept(), None);
}

#[test]
fn bare_slash_resolves_to_the_index_page() {
    assert_eq!(resolve("R", "/", "index.html"), "R/index.html");
    assert_eq!(resolve("R/", "/?q=1", "index.html"), "R/index.html");
}

#[test]
fn query_is_ignored_when_resolving() {
    assert_eq!(resolve("R", "/a/b?x=1", "index.html"), "R/a/b");
    assert_eq!(resolve("/srv/www", "//a///b/", "index.html"), "/srv/www/a/b");
    assert_eq!(request_segments("/a/b?x=1", "index.html"), vec!["a".to_string(), "b".to_string()]);
    assert_eq!(request_segments("/", "pages/home.html"), vec!["pages".to_string(), "home.html".to_string()]);
    assert_eq!(join_path("", &vec!["a".to_string()]), "a");
}

#[test]
fn status_lines_and_built_in_pages() {
    assert_eq!(HttpStatus::OK.get_http_status(), "HTTP/1.0 200 OK\r\n");
    assert_eq!(HttpStatus::NotFound.get_http_status(), "HTTP/1.0 404 NOT FOUND\r\n");
    assert_eq!(
        HttpStatus::InternalServerError.get_http_status(),
        "HTTP/1.0 500 INTERNAL SERVER ERROR\r\n"
    );
    match HttpStatus::NotFound.get_status_default_html(None) {
        Body::Text(t) => assert_eq!(t, NOT_FOUND_PAGE),
        _ => panic!("the built-in page was due"),
    }
    match HttpStatus::InternalServerError.get_status_default_html(Some(7)) {
        Body::File { len } => assert_eq!(len, 7),
        _ => panic!("the configured page was due"),
    }
}

#[test]
fn missing_file_gives_404_with_the_exact_length_of_its_page() {
    let r = send_failed(HttpStatus::NotFound, None);
    assert_eq!(r.body.len(), NOT_FOUND_PAGE.len() as u64);
    match &r.body {
        Body::Text(t) => assert_eq!(t, NOT_FOUND_PAGE),
        _ => panic!("the built-in page was due"),
    }
    let head = r.header.get();
    assert_eq!(
        head,
        format!(
            "HTTP/1.0 404 NOT FOUND\r\nContent-Type:text/html; charset=utf-8\r\nContent-Length:{}\r\n\r\n",
            NOT_FOUND_PAGE.len()
        )
    );
}

#[test]
fn server_error_uses_a_configured_page_when_there_is_one() {
    let r = send_failed(HttpStatus::InternalServerError, Some(1234));
    assert!(r.header.get().starts_with("HTTP/1.0 500 INTERNAL SERVER ERROR\r\n"));
    assert!(matches!(r.body, Body::File { len: 1234 }));
    let r = send_failed(HttpStatus::InternalServerError, None);
    assert_eq!(r.body.len(), SERVER_ERROR_PAGE.len() as u64);
}

#[test]
fn existing_file_gives_200_with_its_length() {
    let mut h = RequestHeader::new();
    let r = send_ok(&h, 0);
    assert_eq!(
        r.header.get(),
        "HTTP/1.0 200 OK\r\nContent-Type:text/html; charset=utf-8\r\nContent-Length:0\r\n\r\n"
    );
    h.add_line("Accept: text/css,*/*;q=0.1").ok().unwrap();
    let r = send_ok(&h, 18446744073709551615);
    assert!(matches!(r.body, Body::File { len: 18446744073709551615 }));
    assert_eq!(
        r.header.get(),
        "HTTP/1.0 200 OK\r\nContent-Type:text/css; charset=utf-8\r\nContent-Length:18446744073709551615\r\n\r\n"
    );
}

#[test]
fn header_text_lists_fields_in_order() {
    let h = ResponseHeader {
        http_status: HttpStatus::OK,
        params: vec![("A".to_string(), "1".to_string()), ("B".to_string(), "".to_string())],
    };
    assert_eq!(h.get(), "HTTP/1.0 200 OK\r\nA:1\r\nB:\r\n\r\n");
}

#[test]
fn get_request_is_answered() {
    let h = Handler::new();
    let (h, next) = h.on_line(line("GET /docs/%E4%BD%A0.html?v=2 HTTP/1.0"));
    assert!(matches!(next, Next::ReadLine));
    let (h, next) = h.on_line(line("Accept: text/plain"));
    assert!(matches!(next, Next::ReadLine));
    let (h, next) = h.on_line(line(""));
    assert!(matches!(h, Handler::Finished));
    match next {
        Next::Get(g) => {
            assert_eq!(g.path, "/docs/你.html?v=2");
            assert_eq!(g.file_path("/srv", "index.html"), "/srv/docs/你.html");
            assert_eq!(g.headers.get_first_accept(), Some("text/plain".to_string()));
        }
        _ => panic!("a GET was due"),
    }
}

#[test]
fn get_is_recognized_in_any_case() {
    let (h, _) = Handler::new().on_line(line("gEt / HTTP/1.0"));
    let (_, next) = h.on_line(line(""));
    assert!(matches!(next, Next::Get(_)));
}

#[test]
fn unsupported_method_closes_without_a_response() {
    let (h, next) = Handler::new().on_line(line("POST / HTTP/1.0"));
    assert!(matches!(next, Next::ReadLine));
    let (h, next) = h.on_line(line("Content-Length: 0"));
    assert!(matches!(next, Next::ReadLine));
    let (h, next) = h.on_line(line(""));
    match next {
        Next::Close(CloseReason::Unsupported(m)) => assert_eq!(m, "POST"),
        _ => panic!("an unsupported method was due"),
    }
    assert!(matches!(h, Handler::Finished));
}

#[test]
fn empty_or_broken_requests_close_without_a_response() {
    assert!(matches!(Handler::new().on_line(line("")).1, Next::Close(CloseReason::Empty)));
    assert!(matches!(Handler::new().on_line(line("GET")).1, Next::Close(CloseReason::BadRequest(_))));
    match Handler::new().on_line(line("GET /%zz HTTP/1.0")).1 {
        Next::Close(CloseReason::BadRequest(e)) => assert_eq!(e.kind, "decode"),
        _ => panic!("a bad target was due"),
    }
    let bad = static_httpd::error::HttpError::new("protocol", "CR without LF");
    match Handler::new().on_line(Err(bad)).1 {
        Next::Close(CloseReason::ReadFailed(e)) => assert_eq!(e.kind, "protocol"),
        _ => panic!("a read failure was due"),
    }
    let (h, _) = Handler::new().on_line(line("GET / HTTP/1.0"));
    let (h, next) = h.on_line(line("no colon"));
    assert!(matches!(next, Next::Close(CloseReason::BadHeader(_))));
    assert!(matches!(h.on_line(line("")).1, Next::Close(CloseReason::Done)));
}

#[test]
fn header_names_lower_case_beyond_ascii() {
    let (n, v) = parse_header_line("\u{c4}RGER:\u{a0}x\u{3000}").ok().unwrap();
    assert_eq!(n, "\u{e4}rger");
    assert_eq!(v, "x");
    let (n, v) = split_header_line(" X-Tag\u{85}: A ").ok().unwrap();
    assert_eq!(n, "X-Tag");
    assert_eq!(v, "A");
}

#[test]
fn first_accept_entry_is_trimmed_of_unicode_space() {
    let mut h = RequestHeader::new();
    h.add_line("Accept: \u{a0}a, b").ok().unwrap();
    assert_eq!(h.get_first_accept(), Some("a".to_string()));
}

#[test]
fn request_line_splits_on_unicode_space() {
    let (m, t) = parse_request_line("GET\u{a0}/ HTTP/1.0").ok().unwrap();
    assert_eq!(m, "GET");
    assert_eq!(t, "/");
}

#[test]
fn get_answers_by_what_the_lookup_found() {
    let mut headers = RequestHeader::new();
    headers.add_line("Accept: text/plain").ok().unwrap();
    let request = GetRequest { path: "/a.txt".to_string(), headers };
    let r = get(&request, Lookup::Found { len: 12 });
    assert_eq!(
        r.header.get(),
        "HTTP/1.0 200 OK\r\nContent-Type:text/plain; charset=utf-8\r\nContent-Length:12\r\n\r\n"
    );
    let r = get(&request, Lookup::Missing { page_len: None });
    assert_eq!(r.body.len(), 99);
    assert!(r.header.get().starts_with("HTTP/1.0 404 NOT FOUND\r\n"));
    let r = get(&request, Lookup::Failed { page_len: Some(3) });
    assert!(r.header.get().starts_with("HTTP/1.0 500 INTERNAL SERVER ERROR\r\n"));
    assert!(matches!(r.body, Body::File { len: 3 }));
}

#[test]
fn success_sent_as_a_failure_page_is_empty() {
    let r = send_failed(HttpStatus::OK, Some(9));
    assert_eq!(r.body.len(), 0);
    assert_eq!(
        r.header.get(),
        "HTTP/1.0 200 OK\r\nContent-Type:text/html; charset=utf-8\r\nContent-Length:0\r\n\r\n"
    );
}
