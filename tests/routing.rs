use tunnel_core::routing::{
    contains_dot, forward_request_header, forward_response_header, get_hop_headers, has_prefix,
    is_hop_header, prefix_from, route, same_text, Route,
};

#[test]
fn prefix_defaults_and_slash() {
    assert_eq!(prefix_from(None), "/tj");
    assert_eq!(prefix_from(Some("ws")), "/ws");
    assert_eq!(prefix_from(Some("/ws")), "/ws");
    assert_eq!(prefix_from(Some("")), "/");
}

#[test]
fn routes() {
    assert!(matches!(route("/tj", "/tj"), Route::Tunnel));
    assert!(matches!(route("/tjabc", "/tj"), Route::Tunnel));
    assert!(matches!(route("/v2/x", "/tj"), Route::Image));
    match route("/example.com/a/b?x=1", "/tj") {
        Route::Api(u) => assert_eq!(u, "https://example.com/a/b?x=1"),
        _ => panic!("expected a proxied url"),
    }
    match route("/example.com", "/tj") {
        Route::Api(u) => assert_eq!(u, "https://example.com"),
        _ => panic!("expected a proxied url"),
    }
    assert!(matches!(route("/localhost/a", "/tj"), Route::NotFound));
    // The pieces match, but the joined text is no URI.
    assert!(matches!(route("/exa mple.com/a", "/tj"), Route::NotFound));
    match route("/a.b?q=1", "/tj") {
        Route::Api(u) => assert_eq!(u, "https://a.b?q=1"),
        _ => panic!("expected a proxied url"),
    }
    assert!(matches!(route("/", "/tj"), Route::NotFound));
    assert!(matches!(route("", "/tj"), Route::NotFound));
}

#[test]
fn text_helpers() {
    assert!(has_prefix("abc", "ab"));
    assert!(has_prefix("abc", ""));
    assert!(!has_prefix("ab", "abc"));
    assert!(same_text("é", "é"));
    assert!(!same_text("a", "ab"));
    assert!(contains_dot("a.b"));
    assert!(!contains_dot("ab"));
}

#[test]
fn hop_headers() {
    assert_eq!(get_hop_headers().len(), 19);
    assert!(is_hop_header("connection"));
    assert!(is_hop_header("cf-ray"));
    assert!(is_hop_header("x-forwarded-server"));
    assert!(!is_hop_header("content-type"));
    assert!(!is_hop_header("Connection"));
    assert!(forward_request_header("accept"));
    assert!(!forward_request_header("via"));
    assert!(forward_response_header("content-type"));
    assert!(!forward_response_header("content-encoding"));
    assert!(!forward_response_header("upgrade"));
}
