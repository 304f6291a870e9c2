use mcp_servers::sec_edgar::{
    document_url, end_year, fact_groups, filings_page, form_passes, normalize_filter, normalize_ticker, pad_cik,
    rank_fact, remove_dashes, resolve_cik, select_annual, strip_zeros, summary_groups, ConceptGroup, EdgarError,
    FactsScan, FilingColumns, TagOutcome, TickerRecord, TickerTable, UnitFacts, XbrlFact, DEFAULT_BASE_WWW,
    MAX_FILINGS,
};

fn table() -> TickerTable {
    let rows = vec![
        TickerRecord { cik_str: 320193, ticker: "aapl".to_string() },
        TickerRecord { cik_str: 1, ticker: "".to_string() },
        TickerRecord { cik_str: 789019, ticker: "MSFT".to_string() },
        TickerRecord { cik_str: 42, ticker: "MSFT".to_string() },
    ];
    TickerTable::from_records(&rows).unwrap()
}

fn fact(form: &str, fy: Option<i64>, fp: &str, end: &str, filed: &str) -> XbrlFact {
    XbrlFact { form: form.to_string(), fy, fp: fp.to_string(), end: end.to_string(), filed: filed.to_string() }
}

#[test]
fn ciks_are_padded_to_ten_digits() {
    assert_eq!(pad_cik(320193), "0000320193");
    assert_eq!(pad_cik(0), "0000000000");
    assert_eq!(pad_cik(12345678901), "12345678901");
}

#[test]
fn tickers_resolve_case_insensitively() {
    let t = table();
    assert_eq!(normalize_ticker("  aapl "), "AAPL");
    assert_eq!(resolve_cik(&t, " aapl ").ok(), Some("0000320193".to_string()));
    assert_eq!(resolve_cik(&t, "msft").ok(), Some("0000000042".to_string()));
    match resolve_cik(&t, "zzzz") {
        Err(EdgarError::NotFound(m)) => assert_eq!(m, "no CIK registered for ticker \"ZZZZ\""),
        other => panic!("unexpected {other:?}"),
    }
    match resolve_cik(&t, "   ") {
        Err(EdgarError::NotFound(m)) => assert_eq!(m, "ticker must not be empty"),
        other => panic!("unexpected {other:?}"),
    }
}

#[test]
fn a_table_without_usable_rows_is_refused() {
    let rows = vec![TickerRecord { cik_str: 1, ticker: "".to_string() }];
    match TickerTable::from_records(&rows) {
        Err(EdgarError::Failed(m)) => assert_eq!(m, "EDGAR returned no usable ticker rows"),
        other => panic!("unexpected {other:?}"),
    }
}

#[test]
fn edgar_error_texts() {
    assert_eq!(EdgarError::NotFound("x".to_string()).message(), "No matching SEC EDGAR record: x");
    assert_eq!(EdgarError::Failed("x".to_string()).message(), "SEC EDGAR request failed: x");
}

#[test]
fn form_filters_include_amendments() {
    let want = normalize_filter(Some(" 10-k "));
    assert_eq!(want.as_deref(), Some("10-K"));
    assert!(form_passes("10-K", &want));
    assert!(form_passes("10-k/A", &want));
    assert!(!form_passes("10-KT", &want));
    assert!(!form_passes("10-Q", &want));
    assert!(form_passes("anything", &None));
}

#[test]
fn document_links() {
    assert_eq!(strip_zeros("0000320193").into_iter().collect::<String>(), "320193");
    assert_eq!(remove_dashes("0000320193-24-000123").into_iter().collect::<String>(), "000032019324000123");
    assert_eq!(
        document_url(DEFAULT_BASE_WWW, "0000320193", "0000320193-24-000123", "aapl-20240928.htm"),
        Some("https://www.sec.gov/Archives/edgar/data/320193/000032019324000123/aapl-20240928.htm".to_string())
    );
    assert_eq!(document_url(DEFAULT_BASE_WWW, "1", "", "x.htm"), None);
    assert_eq!(document_url(DEFAULT_BASE_WWW, "1", "a", ""), None);
}

fn columns(forms: &[&str]) -> FilingColumns {
    let n = forms.len();
    FilingColumns {
        forms: forms.iter().map(|f| f.to_string()).collect(),
        accessions: (0..n).map(|i| format!("0000320193-24-{i:06}")).collect(),
        filing_dates: (0..n).map(|_| "2024-11-01".to_string()).collect(),
        report_dates: (0..n).map(|_| Some("2024-09-28".to_string())).collect(),
        primary_docs: (0..n).map(|i| format!("doc{i}.htm")).collect(),
        descriptions: (0..n).map(|_| None).collect(),
    }
}

#[test]
fn filings_are_filtered_and_capped() {
    let cols = columns(&["10-K", "8-K", "10-K/A", "10-Q"]);
    let page = filings_page(&cols, Some("10-k"), DEFAULT_BASE_WWW, "0000320193");
    assert_eq!(page.form_type.as_deref(), Some("10-K"));
    assert!(!page.truncated);
    let forms: Vec<&str> = page.filings.iter().map(|f| f.form.as_str()).collect();
    assert_eq!(forms, vec!["10-K", "10-K/A"]);
    assert_eq!(
        page.filings[1].url.as_deref(),
        Some("https://www.sec.gov/Archives/edgar/data/320193/000032019324000002/doc2.htm")
    );

    let many: Vec<&str> = (0..40).map(|_| "8-K").collect();
    let page = filings_page(&columns(&many), None, DEFAULT_BASE_WWW, "1");
    assert_eq!(page.filings.len(), MAX_FILINGS);
    assert!(page.truncated);
    let exact: Vec<&str> = (0..MAX_FILINGS).map(|_| "8-K").collect();
    let page = filings_page(&columns(&exact), None, DEFAULT_BASE_WWW, "1");
    assert_eq!(page.filings.len(), MAX_FILINGS);
    assert!(!page.truncated);
}

#[test]
fn filings_stop_at_the_shortest_required_column() {
    let mut cols = columns(&["10-K", "10-K", "10-K"]);
    cols.filing_dates.truncate(2);
    let page = filings_page(&cols, None, DEFAULT_BASE_WWW, "1");
    assert_eq!(page.filings.len(), 2);
}

#[test]
fn fact_ranks() {
    assert_eq!(rank_fact(&fact("10-K", Some(2024), "FY", "2024-09-28", "2024-11-01"), 2024), 3);
    assert_eq!(rank_fact(&fact("10-K/A", Some(2024), "Q4", "2024-09-28", "2024-11-01"), 2024), 2);
    assert_eq!(rank_fact(&fact("10-K", Some(2025), "FY", "2024-09-28", "2024-11-01"), 2024), 1);
    assert_eq!(rank_fact(&fact("10-K", None, "", "2023-09-28", ""), 2024), 0);
    assert_eq!(rank_fact(&fact("10-Q", Some(2024), "FY", "2024-06-28", ""), 2024), 0);
    assert_eq!(end_year("2024-09-28"), Some(2024));
    assert_eq!(end_year("20é4"), None);
    assert_eq!(end_year("24"), None);
}

#[test]
fn annual_selection_prefers_rank_then_dates() {
    let units = vec![
        UnitFacts {
            unit: "USD".to_string(),
            facts: vec![
                fact("10-K", Some(2023), "FY", "2023-09-30", "2023-11-03"),
                fact("10-K", Some(2024), "FY", "2024-09-28", "2024-11-01"),
                fact("10-K", Some(2025), "FY", "2024-09-28", "2025-10-31"),
            ],
        },
        UnitFacts { unit: "EUR".to_string(), facts: vec![fact("10-K", Some(2024), "FY", "2024-12-31", "2025-01-01")] },
    ];
    // The EUR fact ends later than the USD one of the same rank.
    assert_eq!(select_annual(&units, 2024), Some((1, 0)));
    assert_eq!(select_annual(&units, 2023), Some((0, 0)));
    assert_eq!(select_annual(&units, 1999), None);
}

#[test]
fn annual_selection_breaks_date_ties_by_latest() {
    let units = vec![UnitFacts {
        unit: "USD".to_string(),
        facts: vec![
            fact("10-K", Some(2024), "FY", "2024-09-28", "2024-11-01"),
            fact("10-K", Some(2024), "FY", "2024-09-28", "2025-02-01"),
            fact("10-K", Some(2024), "FY", "2024-09-28", "2025-02-01"),
        ],
    }];
    assert_eq!(select_annual(&units, 2024), Some((0, 1)));
}

#[test]
fn concept_groups() {
    let g = summary_groups();
    let names: Vec<&str> = g.iter().map(|g| g.name.as_str()).collect();
    assert_eq!(
        names,
        vec!["Assets", "Liabilities", "StockholdersEquity", "Revenues", "NetIncomeLoss", "EarningsPerShareDiluted"]
    );
    assert_eq!(g[3].tags, vec!["RevenueFromContractWithCustomerExcludingAssessedTax", "Revenues", "SalesRevenueNet"]);
    let one = fact_groups(Some("  Goodwill ")).unwrap();
    assert_eq!(one.len(), 1);
    assert_eq!(one[0].name, "Goodwill");
    assert_eq!(one[0].tags, vec!["Goodwill"]);
    match fact_groups(Some("  ")) {
        Err(EdgarError::NotFound(m)) => assert_eq!(m, "concept must not be empty"),
        other => panic!("unexpected {other:?}"),
    }
    assert_eq!(fact_groups(None).unwrap().len(), 6);
}

#[test]
fn fallback_chain_moves_to_the_next_tag_then_gives_up() {
    let mut scan: FactsScan<u32> = FactsScan::new(fact_groups(None).unwrap());
    // Assets: found at once.
    assert_eq!(scan.pending(), Some(("Assets".to_string(), "Assets".to_string())));
    scan.advance(TagOutcome::Answered { entity_name: Some("Apple Inc.".to_string()), metric: Some(1) }).unwrap();
    // Liabilities and StockholdersEquity: missing documents.
    scan.advance(TagOutcome::NotFound).unwrap();
    scan.advance(TagOutcome::Answered { entity_name: Some("Other".to_string()), metric: None }).unwrap();
    // Revenues: the first two tags have nothing, the third answers.
    assert_eq!(
        scan.pending(),
        Some(("Revenues".to_string(), "RevenueFromContractWithCustomerExcludingAssessedTax".to_string()))
    );
    scan.advance(TagOutcome::NotFound).unwrap();
    assert_eq!(scan.pending(), Some(("Revenues".to_string(), "Revenues".to_string())));
    scan.advance(TagOutcome::NotFound).unwrap();
    scan.advance(TagOutcome::Answered { entity_name: None, metric: Some(4) }).unwrap();
    scan.advance(TagOutcome::Answered { entity_name: None, metric: Some(5) }).unwrap();
    scan.advance(TagOutcome::NotFound).unwrap();
    assert_eq!(scan.pending(), None);
    let report = scan.finish(" aapl", 2024).unwrap();
    assert_eq!(report.ticker, "AAPL");
    assert_eq!(report.entity_name.as_deref(), Some("Apple Inc."));
    assert_eq!(report.metrics, vec![1, 4, 5]);
    assert_eq!(report.missing, vec!["Liabilities", "StockholdersEquity", "EarningsPerShareDiluted"]);
}

#[test]
fn a_failed_fetch_ends_the_report() {
    let mut scan: FactsScan<u32> = FactsScan::new(fact_groups(None).unwrap());
    match scan.advance(TagOutcome::Failed("GET x: unexpected status 500".to_string())) {
        Err(EdgarError::Failed(m)) => assert_eq!(m, "GET x: unexpected status 500"),
        other => panic!("unexpected {other:?}"),
    }
    assert_eq!(scan.pending(), Some(("Assets".to_string(), "Assets".to_string())));
}

#[test]
fn a_single_concept_with_no_fact_is_not_found() {
    let groups = fact_groups(Some("Goodwill")).unwrap();
    let mut scan: FactsScan<u32> = FactsScan::new(groups);
    scan.advance(TagOutcome::Answered { entity_name: Some("Apple Inc.".to_string()), metric: None }).unwrap();
    match scan.finish("aapl", 1999) {
        Err(EdgarError::NotFound(m)) => assert_eq!(m, "AAPL reported no Goodwill for fiscal year 1999"),
        other => panic!("unexpected {other:?}"),
    }
    let groups = vec![ConceptGroup { name: "X".to_string(), tags: vec!["X".to_string()] }];
    let mut scan: FactsScan<u32> = FactsScan::new(groups);
    scan.advance(TagOutcome::NotFound).unwrap();
    match scan.finish("t", -5) {
        Err(EdgarError::NotFound(m)) => assert_eq!(m, "T reported no X for fiscal year -5"),
        other => panic!("unexpected {other:?}"),
    }
}

#[test]
fn normalizing_twice_is_normalizing_once() {
    for t in ["  brk.b ", "aapl", "\u{3000}msft\t", "", "ÄbC"] {
        let once = normalize_ticker(t);
        assert_eq!(normalize_ticker(&once), once);
    }
    assert_eq!(normalize_ticker("ÄbC"), "ÄBC");
}

#[test]
fn unregistered_ticker_message() {
    match mcp_servers::sec_edgar::unregistered_ticker("\"XYZ\"") {
        EdgarError::NotFound(m) => assert_eq!(m, "no CIK registered for ticker \"XYZ\""),
        other => panic!("unexpected {other:?}"),
    }
}

#[test]
fn a_later_fact_beats_an_older_usd_fact() {
    let units = vec![
        UnitFacts { unit: "EUR".to_string(), facts: vec![fact("10-K", Some(2024), "FY", "2024-12-31", "2025-02-01")] },
        UnitFacts { unit: "USD".to_string(), facts: vec![fact("10-K", Some(2024), "FY", "2024-06-30", "2024-08-01")] },
    ];
    assert_eq!(select_annual(&units, 2024), Some((0, 0)));
}

#[test]
fn usd_breaks_ties_of_rank_and_dates() {
    let units = vec![
        UnitFacts { unit: "EUR".to_string(), facts: vec![fact("10-K", Some(2024), "FY", "2024-12-31", "2025-02-01")] },
        UnitFacts { unit: "USD".to_string(), facts: vec![fact("10-K", Some(2024), "FY", "2024-12-31", "2025-02-01")] },
    ];
    assert_eq!(select_annual(&units, 2024), Some((1, 0)));
}
