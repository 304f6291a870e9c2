use mcp_servers::cfpb::{
    api_root, body_preview, category_series, complaint_path, date_only, default_sub_lens, effective_sub_lens,
    narrative_field, next_offset, page_size, ranked_groups, request_url, reversed, search_query, stats_query,
    status_error, suggest_query, top_limit, trend_categories, trends_query, unknown_facet, CategoryTrend, CfpbError, FacetBucket,
    Filters, Query, TrendPoint, DEFAULT_BASE_URL, MAX_SIZE, MAX_TOP,
};

fn no_filters() -> Filters {
    Filters {
        search_term: None,
        field: None,
        company: Vec::new(),
        state: Vec::new(),
        product: Vec::new(),
        issue: Vec::new(),
        zip_code: Vec::new(),
        tags: Vec::new(),
        company_response: Vec::new(),
        company_public_response: Vec::new(),
        consumer_consent_provided: Vec::new(),
        submitted_via: Vec::new(),
        timely: None,
        has_narrative: None,
        date_received_min: None,
        date_received_max: None,
        company_received_min: None,
        company_received_max: None,
    }
}

#[test]
fn query_pairs_are_trimmed_encoded_and_kept_in_order() {
    let mut q = Query::new();
    q.push("a", " x y ").push("b", "   ").push_opt("c", None).push_opt("d", Some("1&2")).push_num("e", 42);
    q.push_all("p", &vec!["m".to_string(), "".to_string(), "n".to_string()]);
    assert_eq!(q.encode(), "a=x%20y&d=1%262&e=42&p=m&p=n");
    assert_eq!(Query::new().encode(), "");
}

#[test]
fn filters_are_written_in_upstream_order() {
    let mut f = no_filters();
    f.search_term = Some("late fee".to_string());
    f.company = vec!["BANK A".to_string(), "BANK B".to_string()];
    f.state = vec!["CA".to_string()];
    f.has_narrative = Some(true);
    f.date_received_min = Some("2024-01-01".to_string());
    let mut q = Query::new();
    f.apply(&mut q);
    assert_eq!(
        q.encode(),
        "search_term=late%20fee&company=BANK%20A&company=BANK%20B&state=CA&date_received_min=2024-01-01&has_narrative=true"
    );
    let echo = f.echo();
    let keys: Vec<&str> = echo.iter().map(|e| e.key.as_str()).collect();
    assert_eq!(keys, vec!["search_term", "company", "state", "date_received_min", "has_narrative"]);
    assert_eq!(echo[1].values, vec!["BANK A".to_string(), "BANK B".to_string()]);
}

#[test]
fn urls() {
    assert_eq!(api_root(DEFAULT_BASE_URL), "https://www.consumerfinance.gov/data-research/consumer-complaints/search/api/v1");
    assert_eq!(request_url("h", "/trends", &Query::new()), "h/data-research/consumer-complaints/search/api/v1/trends");
    let mut q = Query::new();
    q.push("text", "wells");
    assert_eq!(
        request_url("h", "/_suggest_company/", &q),
        "h/data-research/consumer-complaints/search/api/v1/_suggest_company/?text=wells"
    );
}

#[test]
fn statuses() {
    assert!(status_error(200, "u", "b").is_none());
    assert!(matches!(status_error(400, "u", "field x is bad"), Some(CfpbError::BadRequest(m)) if m == "field x is bad"));
    assert!(matches!(status_error(404, "u", "b"), Some(CfpbError::NotFound(m)) if m == "u"));
    match status_error(429, "u", "b") {
        Some(CfpbError::Failed(m)) => {
            assert_eq!(m, "GET u: 429 Too Many Requests (the CFPB API is rate limiting; retry shortly)")
        }
        other => panic!("unexpected {other:?}"),
    }
    match status_error(503, "u", "b") {
        Some(CfpbError::Failed(m)) => assert_eq!(m, "GET u: unexpected status 503"),
        other => panic!("unexpected {other:?}"),
    }
    assert_eq!(CfpbError::BadRequest("x".to_string()).message(), "CFPB rejected the query: x");
    assert_eq!(CfpbError::InvalidArgument("x".to_string()).message(), "Invalid argument: x");
    assert_eq!(CfpbError::NotFound("x".to_string()).message(), "No matching CFPB complaint record: x");
    assert_eq!(CfpbError::Failed("x".to_string()).message(), "CFPB request failed: x");
}

#[test]
fn previews_and_dates() {
    assert_eq!(body_preview("short"), "short");
    assert_eq!(body_preview(&"é".repeat(600)).chars().count(), 500);
    assert_eq!(date_only("2024-09-03T22:42:53.000Z"), "2024-09-03");
    assert_eq!(date_only("2024"), "2024");
    assert_eq!(date_only("2024-09-0é"), "2024-09-0é");
}

#[test]
fn narratives() {
    let n = narrative_field(None, false);
    assert!(n.text.is_none() && !n.truncated);
    let n = narrative_field(Some(""), true);
    assert!(n.text.is_none());
    let long = "x".repeat(700);
    let n = narrative_field(Some(&long), false);
    assert_eq!(n.text.as_deref().map(str::len), Some(600));
    assert!(n.truncated);
    let n = narrative_field(Some(&long), true);
    assert_eq!(n.text.as_deref(), Some(long.as_str()));
    assert!(!n.truncated);
}

#[test]
fn search_paging() {
    let q = search_query(&no_filters(), 500, 20, Some("created_date_desc"));
    assert_eq!(q.encode(), "size=100&frm=20&sort=created_date_desc&no_aggs=true");
    assert_eq!(page_size(500), MAX_SIZE);
    assert_eq!(page_size(7), 7);
    assert_eq!(next_offset(20, 10, 100), Some(30));
    assert_eq!(next_offset(90, 10, 100), None);
}

#[test]
fn complaint_ids() {
    assert_eq!(complaint_path(" 12345 ").unwrap(), "/12345");
    match complaint_path("12a") {
        Err(CfpbError::InvalidArgument(m)) => {
            assert_eq!(m, "complaint_id must be a numeric complaint identifier, got \"12a\"")
        }
        other => panic!("unexpected {other:?}"),
    }
    assert!(complaint_path("  ").is_err());
}

#[test]
fn stats_and_facets() {
    assert_eq!(stats_query(&no_filters()).encode(), "size=0");
    assert_eq!(top_limit(500), MAX_TOP);
    assert_eq!(top_limit(5), 5);
    match unknown_facet("bogus") {
        CfpbError::InvalidArgument(m) => {
            assert_eq!(m, "unknown group_by \"bogus\" \u{2014} the CFPB API returned no such facet")
        }
        other => panic!("unexpected {other:?}"),
    }
    let buckets = vec![
        FacetBucket {
            key: "Mortgage".to_string(),
            count: 9,
            sub_groups: Some(vec![("FHA".to_string(), 5), ("VA".to_string(), 3), ("Other".to_string(), 1)]),
        },
        FacetBucket { key: "Student loan".to_string(), count: 4, sub_groups: None },
        FacetBucket { key: "Debt".to_string(), count: 2, sub_groups: None },
    ];
    let (groups, truncated) = ranked_groups(buckets, 2);
    assert!(truncated);
    assert_eq!(groups.len(), 2);
    assert_eq!(groups[0].key, "Mortgage");
    assert_eq!(groups[0].sub_groups.as_ref().unwrap().len(), 2);
    assert_eq!(groups[1].key, "Student loan");
    let (all, truncated) = ranked_groups(Vec::new(), 3);
    assert!(all.is_empty() && !truncated);
}

#[test]
fn lenses() {
    assert_eq!(default_sub_lens("product"), Some("issue"));
    assert_eq!(default_sub_lens("issue"), Some("product"));
    assert_eq!(default_sub_lens("company"), Some("product"));
    assert_eq!(default_sub_lens("tags"), Some("product"));
    assert_eq!(default_sub_lens("overview"), None);
    assert_eq!(default_sub_lens("nonsense"), None);
    assert_eq!(effective_sub_lens("product", Some("  company ")), Some("company".to_string()));
    assert_eq!(effective_sub_lens("product", Some("  ")), Some("issue".to_string()));
    assert_eq!(effective_sub_lens("overview", None), None);
    let q = trends_query(&no_filters(), "product", Some("issue"), "month");
    assert_eq!(q.encode(), "lens=product&trend_interval=month&sub_lens=issue");
    let q = trends_query(&no_filters(), "overview", Some("issue"), "year");
    assert_eq!(q.encode(), "lens=overview&trend_interval=year");
}

#[test]
fn trend_series_turn_oldest_first() {
    assert_eq!(reversed(vec![1, 2, 3]), vec![3, 2, 1]);
    let point = |p: &str, c: u64| TrendPoint { period: Some(p.to_string()), count: c };
    let cats = vec![
        CategoryTrend { key: "A".to_string(), count: 3, series: vec![point("2024-03-01", 1), point("2024-02-01", 2)] },
        CategoryTrend { key: "B".to_string(), count: 1, series: vec![] },
    ];
    let out = category_series(cats, 1);
    assert_eq!(out.len(), 1);
    assert_eq!(out[0].key, "A");
    assert_eq!(out[0].series[0].period.as_deref(), Some("2024-02-01"));
    assert_eq!(out[0].series[1].count, 1);
}

#[test]
fn suggestions() {
    let (t, q) = suggest_query("  wells fargo ").unwrap();
    assert_eq!(t, "wells fargo");
    assert_eq!(q.encode(), "text=wells%20fargo");
    match suggest_query("   ") {
        Err(CfpbError::InvalidArgument(m)) => assert_eq!(m, "text must not be empty"),
        _ => panic!("expected an error"),
    }
}

#[test]
fn quoted_argument_errors() {
    match mcp_servers::cfpb::bad_complaint_id("\"x\"") {
        CfpbError::InvalidArgument(m) => assert_eq!(m, "complaint_id must be a numeric complaint identifier, got \"x\""),
        other => panic!("unexpected {other:?}"),
    }
    match mcp_servers::cfpb::facet_error("\"y\"") {
        CfpbError::InvalidArgument(m) => assert_eq!(m, "unknown group_by \"y\" \u{2014} the CFPB API returned no such facet"),
        other => panic!("unexpected {other:?}"),
    }
    // Quoting escapes what `{:?}` escapes.
    match unknown_facet("a\"b\n") {
        CfpbError::InvalidArgument(m) => assert!(m.starts_with("unknown group_by \"a\\\"b\\n\"")),
        other => panic!("unexpected {other:?}"),
    }
}

#[test]
fn overview_has_no_categories() {
    let cat = || vec![CategoryTrend { key: "A".to_string(), count: 1, series: vec![] }];
    assert!(trend_categories("overview", cat(), 10).is_empty());
    assert_eq!(trend_categories("product", cat(), 10).len(), 1);
    assert!(trend_categories("product", cat(), 0).is_empty());
}

#[test]
fn error_bodies() {
    assert_eq!(
        mcp_servers::cfpb::describe_body(b"{ \"field\" : [1, 2] }"),
        "{\"field\":[1,2]}"
    );
    assert_eq!(mcp_servers::cfpb::describe_body(b"plain text"), "plain text");
    assert_eq!(mcp_servers::cfpb::describe_body(b"bad \xff byte"), "bad \u{fffd} byte");
    assert_eq!(mcp_servers::cfpb::describe_body(&[b'x'; 700]).len(), 500);
    assert_eq!(mcp_servers::cfpb::body_description(Some("{}".to_string()), "ignored"), "{}");
    assert_eq!(mcp_servers::cfpb::body_description(None, "short"), "short");
}
