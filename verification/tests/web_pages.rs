use my_claw::tools::web_fetch::{
    check_scheme, clean_title, decode_response_text, extract_title, html_to_text, readable_text,
    strip_html_entities, strip_tags, web_fetch_output, web_fetch_request, WebFetchHeader,
    WebFetchInput, WebFetchResponse,
};

#[test]
fn html_to_text_strips_markup() {
    let html = "<html><head><title>Hello &amp; World</title><style>body{}</style></head><body><h1>Alpha</h1><script>bad()</script><p>Beta</p></body></html>";
    let text = decode_response_text(html, Some("text/html"));

    assert!(text.contains("Hello & World"));
    assert!(text.contains("Alpha"));
    assert!(text.contains("Beta"));
    assert!(!text.contains("bad()"));
    assert_eq!(text, "Hello & World Alpha Beta");
}

#[test]
fn extract_title_returns_none_for_non_html() {
    assert!(extract_title("plain text", Some("text/plain")).is_none());
}

fn input(url: &str) -> WebFetchInput {
    WebFetchInput {
        url: url.to_string(),
        timeout_seconds: None,
        max_bytes: None,
        include_headers: false,
    }
}

#[test]
fn rejects_unsupported_scheme() {
    let err = web_fetch_request(&input("ftp://example.com")).expect_err("ftp should be rejected");
    assert!(err.contains("unsupported URL scheme"));
    assert_eq!(err, "unsupported URL scheme: ftp; only http and https are allowed");
}

#[test]
fn requests_are_bounded() {
    let request = web_fetch_request(&input("https://example.com/a")).unwrap();
    assert_eq!(request.url, "https://example.com/a");
    assert_eq!(
        (request.timeout_seconds, request.max_bytes, request.read_limit),
        (15, 200_000, 200_001)
    );
    let low = WebFetchInput {
        timeout_seconds: Some(0),
        max_bytes: Some(0),
        ..input("http://example.com")
    };
    let request = web_fetch_request(&low).unwrap();
    assert_eq!((request.timeout_seconds, request.max_bytes, request.read_limit), (1, 1, 2));
    let high = WebFetchInput {
        timeout_seconds: Some(999),
        max_bytes: Some(9_999_999),
        ..input("http://example.com")
    };
    let request = web_fetch_request(&high).unwrap();
    assert_eq!((request.timeout_seconds, request.max_bytes), (60, 1_000_000));
    assert_eq!(web_fetch_request(&input("no url")).unwrap_err(), "invalid url: no url");
    assert!(check_scheme("x", Some("http")).is_ok());
    assert!(check_scheme("x", Some("https")).is_ok());
    assert_eq!(check_scheme("x", None).unwrap_err(), "invalid url: x");
}

#[test]
fn titles_are_cleaned() {
    let html = "<TITLE lang='en'>\n A <b>bold</b>\n title </TITLE><title>no</title>";
    assert_eq!(extract_title(html, Some("application/xhtml+xml")).unwrap(), "A bold title");
    assert!(extract_title("<title> </title>", Some("text/html")).is_none());
    assert!(extract_title("<p>x</p>", Some("text/html")).is_none());
    assert!(extract_title(html, None).is_none());
    assert_eq!(clean_title(Some("a <i>b</i>")).unwrap(), "a b");
    assert!(clean_title(None).is_none());
}

#[test]
fn texts_are_made_readable() {
    assert_eq!(strip_tags("a<br/>b"), "a b");
    assert_eq!(strip_html_entities("&lt;a&gt;&nbsp;&quot;b&#39;"), "<a> \"b'");
    assert_eq!(strip_html_entities("&amp;lt;"), "<");
    assert_eq!(readable_text("  a &amp;\n b "), "a & b");
    assert_eq!(html_to_text("<p>one</p><style>x</style><p>two</p>"), "one two");
    assert_eq!(decode_response_text(" a\n<b> ", Some("text/plain")), "a <b>");
    assert_eq!(decode_response_text(" a\n<b> ", None), "a <b>");
}

#[test]
fn long_pages_are_cut() {
    let response = |body: &str| WebFetchResponse {
        final_url: "https://example.com/end".to_string(),
        status_code: 200,
        status_text: Some("OK".to_string()),
        content_type: Some("text/plain".to_string()),
        headers: vec![WebFetchHeader { name: "a".to_string(), value: "b".to_string() }],
        body: body.as_bytes().to_vec(),
    };
    let short = WebFetchInput { max_bytes: Some(4), include_headers: true, ..input("https://e") };
    let page = web_fetch_output(&short, response("abcdef"));
    assert!(page.truncated);
    assert_eq!(page.byte_count, 4);
    assert_eq!(page.text, "abcd");
    assert_eq!(page.headers.unwrap()[0].value, "b");
    assert_eq!(page.url, "https://e");
    assert_eq!(page.final_url, "https://example.com/end");
    let page = web_fetch_output(&input("https://e"), response("abcd"));
    assert!(!page.truncated);
    assert!(page.headers.is_none());
    assert!(page.title.is_none());
    assert_eq!((page.status_code, page.status_text.as_deref()), (200, Some("OK")));
    let split = WebFetchInput { max_bytes: Some(2), ..input("https://e") };
    assert_eq!(web_fetch_output(&split, response("a\u{e9}b")).text, "a\u{fffd}");
}
