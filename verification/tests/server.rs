use microbit_ble::server::{
    content_type, hex, is_allowed_method, request_words, response_header, route, safe_join,
    url_decode, Route,
    url_decode_bytes,
};

#[test]
fn hex_digits() {
    assert_eq!(hex(b'0'), Some(0));
    assert_eq!(hex(b'9'), Some(9));
    assert_eq!(hex(b'a'), Some(10));
    assert_eq!(hex(b'F'), Some(15));
    assert_eq!(hex(b'g'), None);
}

#[test]
fn url_decoding() {
    assert_eq!(url_decode("/a%20b.html"), "/a b.html");
    assert_eq!(url_decode("%41%zz"), "A%zz");
    // a '%' needs two more bytes after it
    assert_eq!(url_decode("x%4"), "x%4");
    assert_eq!(url_decode_bytes(b"%e4%bd%a0"), vec![0xE4, 0xBD, 0xA0]);
    assert_eq!(url_decode("%e4%bd%a0"), "\u{4f60}");
    assert_eq!(url_decode("%ff"), "\u{fffd}");
}

#[test]
fn path_segments_refuse_traversal() {
    for windows in [false, true] {
        assert_eq!(safe_join("/", windows), Some(vec![]));
        assert_eq!(
            safe_join("/js/./app.js", windows),
            Some(vec![b"js".to_vec(), b"app.js".to_vec()])
        );
        assert_eq!(safe_join("//a//b/", windows), Some(vec![b"a".to_vec(), b"b".to_vec()]));
        assert_eq!(safe_join("/../etc/passwd", windows), None);
        assert_eq!(safe_join("/a/..", windows), None);
        assert_eq!(safe_join("/a/..b", windows), Some(vec![b"a".to_vec(), b"..b".to_vec()]));
        // a ':' after the first component is an ordinary character
        assert_eq!(safe_join("/x/a:b", windows), Some(vec![b"x".to_vec(), b"a:b".to_vec()]));
        assert_eq!(safe_join("/ab:c", windows), Some(vec![b"ab:c".to_vec()]));
    }
}

#[test]
fn path_segments_unix_rules() {
    // '\' is an ordinary character and 'C:' an ordinary name
    assert_eq!(safe_join("/..\\secret", false), Some(vec![b"..\\secret".to_vec()]));
    assert_eq!(safe_join("/a\\b.css", false), Some(vec![b"a\\b.css".to_vec()]));
    assert_eq!(safe_join("/C:/windows", false), Some(vec![b"C:".to_vec(), b"windows".to_vec()]));
}

#[test]
fn path_segments_windows_rules() {
    // '\' separates, so '..' between backslashes is refused
    assert_eq!(safe_join("/..\\secret", true), None);
    assert_eq!(safe_join("/a\\..\\b", true), None);
    assert_eq!(safe_join("/a\\b.css", true), Some(vec![b"a".to_vec(), b"b.css".to_vec()]));
    // roots and prefixes at the start are refused
    assert_eq!(safe_join("/C:/windows", true), None);
    assert_eq!(safe_join("/c:", true), None);
    assert_eq!(safe_join("//\\server\\share", true), None);
    assert_eq!(safe_join("/\\x", true), None);
}

#[test]
fn content_types() {
    assert_eq!(content_type(Some("html")), "text/html; charset=utf-8");
    assert_eq!(content_type(Some("mjs")), "application/javascript; charset=utf-8");
    assert_eq!(content_type(Some("jpeg")), "image/jpeg");
    assert_eq!(content_type(Some("ico")), "image/x-icon");
    assert_eq!(content_type(Some("wasm")), "application/octet-stream");
    assert_eq!(content_type(None), "application/octet-stream");
}

#[test]
fn methods_and_header() {
    assert!(is_allowed_method("GET"));
    assert!(is_allowed_method("HEAD"));
    assert!(!is_allowed_method("POST"));
    assert!(!is_allowed_method("get"));
    assert_eq!(
        response_header(404, "Not Found", "text/plain", 13),
        "HTTP/1.1 404 Not Found\r\nContent-Type: text/plain\r\nContent-Length: 13\r\nCache-Control: no-store\r\nConnection: close\r\n\r\n"
    );
}

fn served(r: Route) -> Option<Vec<Vec<u8>>> {
    match r {
        Route::Serve(v) => Some(v),
        _ => None,
    }
}

#[test]
fn request_line_words() {
    assert_eq!(request_words("GET /index.html HTTP/1.1"), ("GET", "/index.html"));
    assert_eq!(request_words("  HEAD\t/a  "), ("HEAD", "/a"));
    assert_eq!(request_words("GET"), ("GET", "/"));
    assert_eq!(request_words(""), ("", "/"));
    // Unicode whitespace separates words too
    assert_eq!(request_words("GET\u{3000}/x\u{a0}HTTP/1.1"), ("GET", "/x"));
}

#[test]
fn request_routes() {
    assert!(matches!(route("POST / HTTP/1.1", false), Route::MethodNotAllowed));
    assert!(matches!(route("", false), Route::MethodNotAllowed));
    assert!(matches!(route("get / HTTP/1.1", false), Route::MethodNotAllowed));
    assert_eq!(served(route("GET / HTTP/1.1", false)), Some(vec![]));
    assert_eq!(served(route("GET", false)), Some(vec![]));
    assert_eq!(
        served(route("HEAD /css/app.css?v=2 HTTP/1.1", false)),
        Some(vec![b"css".to_vec(), b"app.css".to_vec()])
    );
    assert_eq!(served(route("GET /a%20b.html HTTP/1.1", false)), Some(vec![b"a b.html".to_vec()]));
    assert!(matches!(route("GET /../secret HTTP/1.1", false), Route::Forbidden));
    assert!(matches!(route("GET /%2e%2e/secret HTTP/1.1", false), Route::Forbidden));
    assert!(matches!(route("GET /C:/x HTTP/1.1", true), Route::Forbidden));
    assert_eq!(
        served(route("GET /C:/x HTTP/1.1", false)),
        Some(vec![b"C:".to_vec(), b"x".to_vec()])
    );
    // the query is cut at the first '?', before decoding
    assert_eq!(served(route("GET /x%3Fy?z HTTP/1.1", false)), Some(vec![b"x?y".to_vec()]));
    assert_eq!(served(route("GET ?q HTTP/1.1", false)), Some(vec![]));
}
