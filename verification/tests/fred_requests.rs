use mcp_servers::fred::{
    encode, get_observations_url, get_series_url, http_failure, observations_limit, request_url,
    search_series_url, FredError, DEFAULT_BASE_URL, MISSING_KEY_MESSAGE,
};

#[test]
fn unreserved_characters_pass_through() {
    assert_eq!(encode("AZaz09-_.~"), "AZaz09-_.~");
    assert_eq!(encode(""), "");
}

#[test]
fn reserved_bytes_are_percent_encoded_in_uppercase() {
    assert_eq!(encode("real gdp"), "real%20gdp");
    assert_eq!(encode("a&b=c/d?"), "a%26b%3Dc%2Fd%3F");
    assert_eq!(encode("é"), "%C3%A9");
    assert_eq!(encode("€"), "%E2%82%AC");
    assert_eq!(encode("+%"), "%2B%25");
}

#[test]
fn request_urls_carry_key_and_format_first() {
    let params = vec![("series_id".to_string(), "GDP C1".to_string())];
    assert_eq!(
        request_url("https://x", "/fred/series", "k y", &params),
        "https://x/fred/series?api_key=k%20y&file_type=json&series_id=GDP%20C1"
    );
    assert_eq!(request_url("https://x", "/p", "k", &Vec::new()), "https://x/p?api_key=k&file_type=json");
}

#[test]
fn endpoint_urls() {
    assert_eq!(
        search_series_url(DEFAULT_BASE_URL, "KEY", "real gross domestic product"),
        "https://api.stlouisfed.org/fred/series/search?api_key=KEY&file_type=json&search_text=real%20gross%20domestic%20product&limit=10"
    );
    assert_eq!(
        get_series_url(DEFAULT_BASE_URL, "KEY", "UNRATE"),
        "https://api.stlouisfed.org/fred/series?api_key=KEY&file_type=json&series_id=UNRATE"
    );
    assert_eq!(
        get_observations_url(DEFAULT_BASE_URL, "KEY", "UNRATE", Some(5)),
        "https://api.stlouisfed.org/fred/series/observations?api_key=KEY&file_type=json&series_id=UNRATE&sort_order=desc&limit=5"
    );
}

#[test]
fn observation_limits_are_clamped() {
    assert_eq!(observations_limit(None), 10);
    assert_eq!(observations_limit(Some(0)), 1);
    assert_eq!(observations_limit(Some(250)), 250);
    assert_eq!(observations_limit(Some(1_000_000)), 100_000);
    assert!(get_observations_url("b", "k", "S", Some(0)).ends_with("&limit=1"));
}

#[test]
fn fred_error_texts() {
    assert_eq!(FredError::MissingKey.message(), MISSING_KEY_MESSAGE);
    assert_eq!(FredError::Request("boom".to_string()).message(), "FRED request failed: boom");
    match http_failure("400 Bad Request", "Bad Request.  The series does not exist.") {
        FredError::Request(m) => assert_eq!(m, "HTTP 400 Bad Request: Bad Request.  The series does not exist."),
        other => panic!("unexpected {other:?}"),
    }
}

#[test]
fn encoded_values_are_url_safe() {
    for s in ["plain", "a b&c=d", "ü€😀", "%41", "~!*'();:@&=+$,/?#[]"] {
        let e = encode(s);
        assert!(
            e.chars().all(|c| c.is_ascii_alphanumeric() || "-_.~%".contains(c)),
            "{e}"
        );
    }
}
