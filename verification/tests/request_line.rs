use chunky::http::{endpoint, parse_http_request, parse_uri, RequestError};
use chunky::text::{chars_of, is_whitespace, next_word, range_has_prefix, range_is,
    range_is_ignoring_case, to_ascii_upper};

fn rejected(line: &str) -> RequestError {
    match parse_http_request(line) {
        Ok(request) => panic!("accepted {:?} as {:?}", line, request),
        Err(e) => e,
    }
}

#[test]
fn get_target_without_scheme_goes_to_port_80() {
    let request = parse_http_request("GET example.com/path HTTP/1.1\r\n").unwrap();
    assert_eq!(request.host, "example.com");
    assert_eq!(request.port, 80);
    assert!(!request.is_https);
    assert_eq!(request.version, "HTTP/1.1");
}

#[test]
fn connect_target_is_a_tunnel_to_its_port() {
    let request = parse_http_request("CONNECT example.com:443 HTTP/1.1\r\n").unwrap();
    assert_eq!(request.host, "example.com");
    assert_eq!(request.port, 443);
    assert!(request.is_https);
    assert_eq!(request.version, "HTTP/1.1");
}

#[test]
fn connect_without_port_defaults_to_443() {
    let request = parse_http_request("CONNECT example.com HTTP/1.0\r\n").unwrap();
    assert_eq!(request.host, "example.com");
    assert_eq!(request.port, 443);
    assert!(request.is_https);
    assert_eq!(request.version, "HTTP/1.0");
}

#[test]
fn explicit_port_wins_over_the_default() {
    let request = parse_http_request("GET http://example.com:8080/index.html HTTP/1.0\r\n")
        .unwrap();
    assert_eq!(request.host, "example.com");
    assert_eq!(request.port, 8080);
    let request = parse_http_request("CONNECT example.com:8443 HTTP/1.1\r\n").unwrap();
    assert_eq!(request.port, 8443);
    let request = parse_http_request("GET example.com:81 HTTP/1.1\r\n").unwrap();
    assert_eq!(request.port, 81);
}

#[test]
fn absolute_get_target_is_taken_as_it_is() {
    let request = parse_http_request("GET http://example.com/ HTTP/1.1\r\n").unwrap();
    assert_eq!(request.host, "example.com");
    assert_eq!(request.port, 80);
    assert!(!request.is_https);
}

#[test]
fn scheme_is_put_in_front_unless_it_is_the_implied_one() {
    // For GET only `http://` counts as a scheme: anything else is a host.
    let request = parse_http_request("GET https://example.com/ HTTP/1.1\r\n").unwrap();
    assert_eq!(request.host, "https");
    assert_eq!(request.port, 80);
    let request = parse_http_request("CONNECT https://example.com HTTP/1.1\r\n").unwrap();
    assert_eq!(request.host, "example.com");
    assert_eq!(request.port, 443);
}

#[test]
fn method_is_matched_in_any_case() {
    assert!(!parse_http_request("get example.com HTTP/1.1\r\n").unwrap().is_https);
    assert!(!parse_http_request("gEt example.com HTTP/1.1\r\n").unwrap().is_https);
    assert!(parse_http_request("connect example.com:443 HTTP/1.1\r\n").unwrap().is_https);
    assert!(parse_http_request("Connect example.com:443 HTTP/1.1\r\n").unwrap().is_https);
}

#[test]
fn line_without_crlf_is_rejected() {
    assert_eq!(rejected("GET example.com HTTP/1.1"), RequestError::InvalidRequest);
    assert_eq!(rejected("GET example.com HTTP/1.1\n"), RequestError::InvalidRequest);
    assert_eq!(rejected("GET example.com HTTP/1.1\r"), RequestError::InvalidRequest);
    assert_eq!(rejected("GET example.com HTTP/1.1\n\r"), RequestError::InvalidRequest);
    assert_eq!(rejected(""), RequestError::InvalidRequest);
    assert_eq!(rejected("\n"), RequestError::InvalidRequest);
    // The line ending is looked at before the method.
    assert_eq!(rejected("POST example.com HTTP/1.1"), RequestError::InvalidRequest);
}

#[test]
fn other_methods_are_rejected() {
    assert_eq!(rejected("POST example.com HTTP/1.1\r\n"), RequestError::InvalidMethod);
    assert_eq!(rejected("HEAD example.com HTTP/1.1\r\n"), RequestError::InvalidMethod);
    assert_eq!(rejected("GETS example.com HTTP/1.1\r\n"), RequestError::InvalidMethod);
    assert_eq!(rejected("GE example.com HTTP/1.1\r\n"), RequestError::InvalidMethod);
    assert_eq!(rejected("CONNECT:example.com HTTP/1.1\r\n"), RequestError::InvalidMethod);
    // The method is looked at before the rest of the line.
    assert_eq!(rejected("FOO\r\n"), RequestError::InvalidMethod);
    assert_eq!(rejected("PUT example.com HTTP/9\r\n"), RequestError::InvalidMethod);
}

#[test]
fn other_versions_are_rejected() {
    assert_eq!(rejected("GET example.com HTTP/2.0\r\n"), RequestError::InvalidVersion);
    assert_eq!(rejected("GET example.com HTTP/1.2\r\n"), RequestError::InvalidVersion);
    assert_eq!(rejected("GET example.com http/1.1\r\n"), RequestError::InvalidVersion);
    assert_eq!(rejected("CONNECT example.com:443 HTTP/1.1x\r\n"), RequestError::InvalidVersion);
    // The version is looked at before the target.
    assert_eq!(rejected("GET http://[::1 HTTP/3\r\n"), RequestError::InvalidVersion);
}

#[test]
fn short_lines_are_rejected() {
    assert_eq!(rejected("\r\n"), RequestError::InvalidRequest);
    assert_eq!(rejected("   \r\n"), RequestError::InvalidRequest);
    assert_eq!(rejected("GET\r\n"), RequestError::InvalidRequest);
    assert_eq!(rejected("GET example.com\r\n"), RequestError::InvalidRequest);
    assert_eq!(rejected("CONNECT example.com:443 \r\n"), RequestError::InvalidRequest);
}

#[test]
fn words_after_the_version_are_ignored() {
    let request = parse_http_request("GET example.com HTTP/1.1 and more\r\n").unwrap();
    assert_eq!(request.host, "example.com");
    assert_eq!(request.version, "HTTP/1.1");
}

#[test]
fn any_white_space_parts_the_words() {
    let request = parse_http_request("  GET\t\texample.com \u{3000} HTTP/1.0\r\n").unwrap();
    assert_eq!(request.host, "example.com");
    assert_eq!(request.version, "HTTP/1.0");
    let request = parse_http_request("CONNECT\nexample.com:443\u{2028}HTTP/1.1\r\n").unwrap();
    assert_eq!(request.host, "example.com");
    assert_eq!(request.port, 443);
}

#[test]
fn unparseable_target_is_rejected() {
    assert_eq!(rejected("GET http://[::1 HTTP/1.1\r\n"), RequestError::InvalidUri);
    assert_eq!(rejected("GET http:// HTTP/1.1\r\n"), RequestError::InvalidUri);
    assert_eq!(rejected("CONNECT example.com:99999 HTTP/1.1\r\n"), RequestError::InvalidUri);
    assert_eq!(rejected("CONNECT exa<mple.com:443 HTTP/1.1\r\n"), RequestError::InvalidUri);
}

#[test]
fn hosts_come_back_as_the_url_writes_them() {
    let request = parse_http_request("CONNECT [2001:db8::1]:8443 HTTP/1.1\r\n").unwrap();
    assert_eq!(request.host, "[2001:db8::1]");
    assert_eq!(request.port, 8443);
    let request = parse_http_request("GET EXAMPLE.com/Path HTTP/1.1\r\n").unwrap();
    assert_eq!(request.host, "example.com");
    let request = parse_http_request("CONNECT user@example.org:443 HTTP/1.1\r\n").unwrap();
    assert_eq!(request.host, "example.org");
    let request = parse_http_request("GET 127.0.0.1:8000/x HTTP/1.1\r\n").unwrap();
    assert_eq!(request.host, "127.0.0.1");
    assert_eq!(request.port, 8000);
}

#[test]
fn parse_uri_gives_host_and_port() {
    assert_eq!(parse_uri("http://example.com:81/a?b#c"), Ok(("example.com".to_string(), 81)));
    assert_eq!(parse_uri("https://example.com"), Ok(("example.com".to_string(), 443)));
    assert_eq!(parse_uri("http://example.com"), Ok(("example.com".to_string(), 80)));
    assert_eq!(parse_uri("ftp://example.com/file"), Ok(("example.com".to_string(), 21)));
    assert_eq!(parse_uri("wss://example.com/socket"), Ok(("example.com".to_string(), 443)));
    // A scheme without a known default port falls back to port 80.
    assert_eq!(parse_uri("foo://example.com/"), Ok(("example.com".to_string(), 80)));
    assert_eq!(parse_uri("foo://example.com:1456"), Ok(("example.com".to_string(), 1456)));
}

#[test]
fn parse_uri_rejects_what_is_no_url() {
    assert_eq!(parse_uri("example.com"), Err(RequestError::InvalidUri));
    assert_eq!(parse_uri(""), Err(RequestError::InvalidUri));
    assert_eq!(parse_uri("http://exa mple.com"), Err(RequestError::InvalidUri));
}

#[test]
fn parse_uri_rejects_urls_without_host() {
    assert_eq!(parse_uri("data:text/plain,Stuff"), Err(RequestError::InvalidHost));
    assert_eq!(parse_uri("unix:/run/foo.socket"), Err(RequestError::InvalidHost));
    assert_eq!(parse_uri("mailto:someone@example.com"), Err(RequestError::InvalidHost));
}

#[test]
fn endpoint_needs_a_host_and_fills_in_the_port() {
    assert_eq!(endpoint(Some("example.com"), Some(8080)), Ok(("example.com".to_string(), 8080)));
    assert_eq!(endpoint(Some("example.com"), None), Ok(("example.com".to_string(), 80)));
    assert_eq!(endpoint(Some(""), Some(0)), Ok((String::new(), 0)));
    assert_eq!(endpoint(None, Some(443)), Err(RequestError::InvalidHost));
    assert_eq!(endpoint(None, None), Err(RequestError::InvalidHost));
}

#[test]
fn errors_describe_themselves() {
    assert_eq!(RequestError::InvalidRequest.message(), "Invalid HTTP request");
    assert_eq!(RequestError::InvalidMethod.message(), "Invalid HTTP method");
    assert_eq!(RequestError::InvalidVersion.message(), "Invalid HTTP version");
    assert_eq!(RequestError::InvalidUri.message(), "Invalid URI");
    assert_eq!(RequestError::InvalidHost.message(), "Invalid host");
}

#[test]
fn white_space_is_what_unicode_says() {
    let mut c = 0u32;
    while c <= 0x10FFFF {
        if let Some(ch) = char::from_u32(c) {
            assert_eq!(is_whitespace(ch), ch.is_whitespace(), "U+{:04X}", c);
        }
        c += 1;
    }
}

#[test]
fn upper_case_is_that_of_ascii() {
    let mut c = 0u32;
    while c <= 0x10FFFF {
        if let Some(ch) = char::from_u32(c) {
            assert_eq!(to_ascii_upper(ch), ch.to_ascii_uppercase(), "U+{:04X}", c);
        }
        c += 1;
    }
}

#[test]
fn only_ascii_letters_spell_a_method() {
    // No character outside ASCII has an upper-case form made of the letters
    // of the two methods, so matching them up to ASCII case is matching
    // their upper-case forms.
    let letters = "GETCONNECT";
    let mut c = 0x80u32;
    while c <= 0x10FFFF {
        if let Some(ch) = char::from_u32(c) {
            assert!(!ch.to_uppercase().all(|u| letters.contains(u)), "U+{:04X}", c);
        }
        c += 1;
    }
    for method in ["GET", "get", "Get", "gET", "CONNECT", "connect", "cOnNeCt", "GE", "GETT",
        "CONECT", "PUT", "G\u{212A}T", "\u{FB06}"]
    {
        let chars = chars_of(method);
        let upper = method.to_uppercase();
        assert_eq!(range_is_ignoring_case(&chars, 0, chars.len(), "GET"), upper == "GET");
        assert_eq!(range_is_ignoring_case(&chars, 0, chars.len(), "CONNECT"), upper == "CONNECT");
    }
}

#[test]
fn words_are_those_between_white_space() {
    for line in ["GET example.com HTTP/1.1\r\n", "", "   ", "one", " one", "one ", "a  b\tc\r\nd",
        "\u{a0}x\u{2003}y\u{85}", "h\u{e9}llo w\u{f6}rld \u{1F600} end", "\r\n"]
    {
        let chars = chars_of(line);
        assert_eq!(chars, line.chars().collect::<Vec<char>>());
        let mut found: Vec<String> = Vec::new();
        let mut from = 0;
        while let Some((start, end)) = next_word(&chars, from) {
            assert!(from <= start && start < end && end <= chars.len());
            found.push(chars[start..end].iter().collect());
            from = end;
        }
        let expected: Vec<String> = line.split_whitespace().map(|w| w.to_string()).collect();
        assert_eq!(found, expected, "{:?}", line);
    }
}

#[test]
fn ranges_are_compared_with_texts() {
    let chars = chars_of("GET http://example.com HTTP/1.1");
    assert!(range_is(&chars, 0, 3, "GET"));
    assert!(!range_is(&chars, 0, 3, "GEt"));
    assert!(!range_is(&chars, 0, 2, "GET"));
    assert!(!range_is(&chars, 0, 4, "GET"));
    assert!(range_is(&chars, 3, 3, ""));
    assert!(range_is(&chars, 23, 31, "HTTP/1.1"));
    assert!(range_is_ignoring_case(&chars, 4, 8, "HTTP"));
    assert!(!range_is_ignoring_case(&chars, 4, 8, "HTTQ"));
    assert!(range_has_prefix(&chars, 4, 22, "http://"));
    assert!(range_has_prefix(&chars, 4, 22, ""));
    assert!(!range_has_prefix(&chars, 4, 22, "https://"));
    assert!(!range_has_prefix(&chars, 4, 8, "http://"));
    assert!(!range_has_prefix(&chars, 5, 22, "http://"));
}
