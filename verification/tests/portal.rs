use deskbridge::http::{
    answer, content_length, find_encoded_name, find_name, find_subsequence, is_length_line, parse_request,
    portal_response, read_length, route, route_request, HeadStep, RequestBuffer, Route, Upload,
    UploadStep, WebRequest, HEAD_LIMIT, LENGTH_REQUIRED, NOT_FOUND, TOO_LARGE, UPLOADED,
};
use deskbridge::percent::{percent_decode, url_decode};
use deskbridge::portal::get_portal_html;
use deskbridge::transfer::{Progress, Speed};

fn chars(s: &str) -> Vec<char> {
    s.chars().collect()
}

fn upload_of(head: &str) -> (String, u64) {
    match route_request(head) {
        WebRequest::Upload { name, content_length } => (name.file_name, content_length),
        other => panic!("{:?}", other),
    }
}

#[test]
fn subsequences() {
    assert_eq!(find_subsequence(b"abcabc", b"ca"), Some(2));
    assert_eq!(find_subsequence(b"abcabc", b"abc"), Some(0));
    assert_eq!(find_subsequence(b"abcabc", b"abd"), None);
    assert_eq!(find_subsequence(b"ab", b"abc"), None);
    assert_eq!(find_subsequence(b"", b"a"), None);
    assert_eq!(find_subsequence(b"xab", b"ab"), Some(1));
}

#[test]
fn the_head_of_a_request() {
    let mut buffer = RequestBuffer::new();
    assert_eq!(buffer.push(b"GET / HTTP/1.1\r"), HeadStep::More);
    assert_eq!(buffer.push(b"\n\r"), HeadStep::More);
    assert_eq!(buffer.push(b"\nbody\r\n\r\n"), HeadStep::Complete(14));
    assert_eq!(buffer.head(14), b"GET / HTTP/1.1".to_vec());
    assert_eq!(buffer.body(14), b"body\r\n\r\n".to_vec());
    assert_eq!(RequestBuffer::new().push(b""), HeadStep::Closed);
}

#[test]
fn a_head_that_is_too_long() {
    let mut buffer = RequestBuffer::new();
    assert_eq!(buffer.push(&vec![b'a'; HEAD_LIMIT]), HeadStep::More);
    assert_eq!(buffer.push(b"a"), HeadStep::TooLarge);
    // A head that ends in the last bytes read is taken, however long it is.
    let mut long = RequestBuffer::new();
    let mut bytes = vec![b'a'; HEAD_LIMIT + 100];
    bytes.extend_from_slice(b"\r\n\r\n");
    assert_eq!(long.push(&bytes), HeadStep::Complete(HEAD_LIMIT + 100));
}

#[test]
fn routes() {
    assert_eq!(route(&chars("GET"), &chars("/")), Route::Portal);
    assert_eq!(route(&chars("GET"), &chars("/index.html")), Route::Portal);
    assert_eq!(route(&chars("GET"), &chars("/upload")), Route::NotFound);
    assert_eq!(route(&chars("POST"), &chars("/upload")), Route::Upload);
    assert_eq!(route(&chars("POST"), &chars("/uploads?x")), Route::Upload);
    assert_eq!(route(&chars("POST"), &chars("/")), Route::NotFound);
    assert_eq!(route(&chars("get"), &chars("/")), Route::NotFound);
}

#[test]
fn requests() {
    assert_eq!(parse_request(b"GET / HTTP/1.1\r\nHost: x"), WebRequest::Portal);
    assert_eq!(parse_request(b"GET /other HTTP/1.1"), WebRequest::NotFound);
    assert_eq!(parse_request(b"GET"), WebRequest::Ignored);
    assert_eq!(parse_request(b""), WebRequest::Ignored);
    assert_eq!(parse_request(b"\r\nGET / HTTP/1.1"), WebRequest::Ignored);
    // Two words are enough, and any white space parts them.
    assert_eq!(parse_request(b"  GET\t/  "), WebRequest::Portal);
    assert_eq!(parse_request(b"POST /upload HTTP/1.1\r\nHost: x"), WebRequest::LengthRequired);
    assert_eq!(
        parse_request(b"POST /upload?name=.. HTTP/1.1\r\nContent-Length: 5"),
        WebRequest::InvalidName { backslash: std::path::MAIN_SEPARATOR == '\\' }
    );
    // The name is looked at before the length.
    assert!(matches!(
        parse_request(b"POST /upload?name=/ HTTP/1.1"),
        WebRequest::InvalidName { .. }
    ));
}

#[test]
fn uploads() {
    assert_eq!(
        upload_of("POST /upload?name=my%20file.txt HTTP/1.1\r\nContent-Length: 12"),
        ("my file.txt".to_string(), 12)
    );
    assert_eq!(
        upload_of("POST /upload HTTP/1.1\r\ncontent-LENGTH:+7"),
        ("uploaded_file".to_string(), 7)
    );
    assert_eq!(
        upload_of("POST /upload?a=b&filename=c.bin&name=d HTTP/1.1\r\nContent-Length: 1"),
        ("c.bin".to_string(), 1)
    );
    assert_eq!(
        upload_of("POST /upload?name=..%2F..%2Fx HTTP/1.1\r\nContent-Length: 1"),
        ("x".to_string(), 1)
    );
}

#[test]
fn heads_that_are_not_utf8() {
    match parse_request(b"POST /upload?name=a\xffb HTTP/1.1\r\nContent-Length: 3") {
        WebRequest::Upload { name, content_length } => {
            assert_eq!(name.file_name, "a\u{fffd}b");
            assert_eq!(content_length, 3);
        }
        other => panic!("{:?}", other),
    }
}

#[test]
fn names_in_addresses() {
    assert_eq!(find_name(&chars("/upload")), "uploaded_file");
    assert_eq!(find_name(&chars("/upload?")), "uploaded_file");
    assert_eq!(find_name(&chars("/upload?name=a=b")), "uploaded_file");
    assert_eq!(find_name(&chars("/upload?name=")), "");
    assert_eq!(find_name(&chars("/upload?x&name=a+b")), "a b");
    assert_eq!(find_encoded_name(&chars("/upload?filename=%41")), Some(chars("%41")));
    assert_eq!(find_encoded_name(&chars("/upload?title=%41")), None);
    assert_eq!(find_encoded_name(&chars("/upload?a?name=b")), None);
}

#[test]
fn lengths() {
    assert!(is_length_line("content-length: 5"));
    assert!(!is_length_line("Content-Length: 5"));
    assert!(!is_length_line("content-length 5"));
    assert_eq!(read_length(&chars("Content-Length:  42 "), 7), 42);
    assert_eq!(read_length(&chars("Content-Length: many"), 7), 0);
    assert_eq!(read_length(&chars("Content-Length: 1:2"), 7), 1);
    assert_eq!(read_length(&chars("Content-Length"), 7), 7);
    assert_eq!(read_length(&chars("Content-Length: 18446744073709551615"), 7), u64::MAX);
    assert_eq!(read_length(&chars("Content-Length: 18446744073709551616"), 7), 0);
    let all = vec![
        chars("content-length: 9"),
        chars("Content-Length: 3"),
        chars("X: 1"),
        chars("CONTENT-LENGTH: 4"),
    ];
    assert_eq!(content_length(&all), 4);
    assert_eq!(content_length(&all[..1].to_vec()), 0);
}

#[test]
fn percent_signs() {
    assert_eq!(url_decode("a%20b+c"), "a b c");
    assert_eq!(url_decode("%D0%BF%d1%80"), "пр");
    assert_eq!(url_decode("100%"), "100%");
    assert_eq!(url_decode("%4"), "%4");
    assert_eq!(url_decode("%41"), "A");
    assert_eq!(url_decode("%zz"), "%zz");
    assert_eq!(url_decode("%+a"), "\n");
    assert_eq!(url_decode("%++"), "%  ");
    assert_eq!(url_decode("%-1"), "%-1");
    assert_eq!(url_decode("%ff"), "\u{fffd}");
    assert_eq!(url_decode("%%41"), "%A");
    assert_eq!(percent_decode(b"%00%FF+"), vec![0, 255, 32]);
}

#[test]
fn decoding_splits_in_front_of_percent_signs() {
    assert_eq!(url_decode("a+b\u{e9}"), "a b\u{e9}");
    for rest in ["%41", "%ff%fe", "+%e2%82", "%", "x"] {
        assert_eq!(url_decode(&format!("+\u{e9}+{}", rest)), format!(" \u{e9} {}", url_decode(rest)));
    }
    // The text that stands for bytes that are not UTF-8 is no longer either.
    for s in ["%41%42", "100%", "\u{e9}+", "%C3%A9", "%ff", "%C3\u{e9}", "\u{e9}%a9x%e2%82", "%f0%9f%98"] {
        assert!(url_decode(s).len() <= s.len());
    }
}

#[test]
fn encoded_names_come_back() {
    let name = "отчёт 100% (v2)+final.txt";
    let mut encoded = String::new();
    for b in name.bytes() {
        if b.is_ascii_alphanumeric() || b"-_.!~*'()".contains(&b) {
            encoded.push(b as char);
        } else {
            encoded.push_str(&format!("%{:02X}", b));
        }
    }
    assert_eq!(url_decode(&encoded), name);
    let head = format!("POST /upload?name={} HTTP/1.1\r\nContent-Length: 1", encoded);
    assert_eq!(upload_of(&head), (name.to_string(), 1));
}

#[test]
fn the_page() {
    let html = get_portal_html();
    assert!(html.starts_with("<!DOCTYPE html>"));
    assert!(html.trim_end().ends_with("</html>"));
    assert!(html.contains("/upload?name="));
    let response = portal_response();
    let (head, body) = response.split_once("\r\n\r\n").unwrap();
    assert_eq!(body, html);
    assert_eq!(
        head,
        format!(
            "HTTP/1.1 200 OK\r\nContent-Type: text/html; charset=utf-8\r\nContent-Length: {}\r\nConnection: close",
            html.len()
        )
    );
}

#[test]
fn fixed_answers() {
    assert!(TOO_LARGE.starts_with("HTTP/1.1 431 "));
    assert!(LENGTH_REQUIRED.starts_with("HTTP/1.1 411 "));
    assert!(UPLOADED.starts_with("HTTP/1.1 200 OK\r\nAccess-Control-Allow-Origin: *\r\n"));
    assert!(NOT_FOUND.starts_with("HTTP/1.1 404 "));
    assert!(NOT_FOUND.ends_with("Content-Length: 9\r\nConnection: close\r\n\r\nNot Found"));
}

#[test]
fn answers() {
    let to = |head: &[u8]| answer(&parse_request(head));
    assert_eq!(to(b"GET /index.html HTTP/1.1"), Some(portal_response()));
    assert_eq!(to(b"PUT / HTTP/1.1"), Some(NOT_FOUND.to_string()));
    assert_eq!(to(b"POST /upload?name=a HTTP/1.1"), Some(LENGTH_REQUIRED.to_string()));
    assert_eq!(to(b"POST /upload?name=a HTTP/1.1\r\nContent-Length: 4"), None);
    assert_eq!(to(b"POST /upload?name=.. HTTP/1.1"), None);
    assert_eq!(to(b"GET"), None);
    assert_eq!(HeadStep::TooLarge.refusal(), Some(TOO_LARGE));
    assert_eq!(HeadStep::More.refusal(), None);
    assert_eq!(HeadStep::Complete(3).refusal(), None);
    assert_eq!(HeadStep::Closed.refusal(), None);
}

#[test]
fn an_upload() {
    let (mut upload, n) = Upload::new("web_recv_1".to_string(), "f".to_string(), 10, b"abc");
    assert_eq!(n, 3);
    assert_eq!(upload.start().status, "starting");
    assert_eq!(upload.next(), UploadStep::Read(7));
    assert!(upload.record(b"defghij"));
    assert_eq!(upload.next(), UploadStep::Finished);
    assert_eq!(upload.progress(10), None);
    let news = upload.progress(200).unwrap();
    assert_eq!(news.progress, Progress::Part { done: 10, total: 10 });
    assert_eq!(news.speed, Speed::Bytes(10));
    let end = upload.conclude();
    assert_eq!(upload.reply(), UPLOADED);
    assert_eq!(end.status, "completed");
    assert_eq!(end.speed, Speed::Bytes(10));
    assert_eq!(end.sha256_matches, Some(true));
}

#[test]
fn an_upload_with_too_much_body() {
    let (upload, n) = Upload::new("w".to_string(), "f".to_string(), 2, b"abc");
    assert_eq!(n, 2);
    assert_eq!(upload.next(), UploadStep::Finished);
}

/// Reads a request as it comes in pieces of the given size, and gives what is saved.
fn saved_in_pieces(stream: &[u8], size: usize) -> Vec<u8> {
    let mut buffer = RequestBuffer::new();
    let mut at = 0;
    let end = loop {
        let n = size.min(stream.len() - at);
        let step = buffer.push(&stream[at..at + n]);
        at += n;
        if let HeadStep::Complete(end) = step {
            break end;
        }
        assert_eq!(step, HeadStep::More);
    };
    let total = match parse_request(&buffer.head(end)) {
        WebRequest::Upload { content_length, .. } => content_length,
        other => panic!("{:?}", other),
    };
    let body = buffer.body(end);
    let (mut upload, first) = Upload::new("w".to_string(), "f".to_string(), total, &body);
    let mut saved = body[..first].to_vec();
    while let UploadStep::Read(limit) = upload.next() {
        let n = size.min(limit).min(stream.len() - at);
        saved.extend_from_slice(&stream[at..at + n]);
        if !upload.record(&stream[at..at + n]) {
            break;
        }
        at += n;
    }
    assert_eq!(upload.received, saved.len() as u64);
    assert_eq!(upload.conclude().status, "completed");
    saved
}

#[test]
fn any_split_saves_the_same() {
    for (total, expected) in [(3, "abc"), (6, "abcdef"), (100, "abcdef\r\n\r\nxyz")] {
        let stream = format!(
            "POST /upload?name=f HTTP/1.1\r\nContent-Length: {}\r\n\r\nabcdef\r\n\r\nxyz",
            total
        );
        for size in 1..stream.len() + 1 {
            assert_eq!(saved_in_pieces(stream.as_bytes(), size), expected.as_bytes());
        }
    }
}

#[test]
fn names_with_a_drive() {
    assert_eq!(
        upload_of("POST /upload?name=C:/d/a.txt HTTP/1.1\r\nContent-Length: 2"),
        ("a.txt".to_string(), 2)
    );
    assert_eq!(
        parse_request(b"POST /upload?name=C:/d/a.txt HTTP/1.1"),
        WebRequest::LengthRequired
    );
}

#[test]
fn an_upload_that_breaks_off() {
    let (mut upload, _) = Upload::new("w".to_string(), "f".to_string(), 100_000, b"");
    assert_eq!(upload.next(), UploadStep::Read(65536));
    assert!(upload.record(b"a"));
    assert!(!upload.record(b""));
    assert_eq!(upload.received, 1);
}
