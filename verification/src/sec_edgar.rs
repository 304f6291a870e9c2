//! SEC EDGAR lookups: ticker to CIK resolution, XBRL fact selection, the
//! concept fallback chains, and filing-history shaping.
//!
//! Every request carries a `User-Agent` naming a real contact, per SEC
//! policy; the HTTP exchange itself is the caller's.
use vstd::prelude::*;
use vstd::utf8::{decode_utf8, encode_utf8, is_char_boundary};
use crate::text::{
    bytes_equal, bytes_less, bytes_lt, lemma_bytes_lt_order, parse_i32, parse_i32_spec,
    ascii_upper_seq, chars_of, debug_quoted, debug_text, push_chars, push_str, push_zero_padded, str_eq, string_of,
    to_ascii_upper_chars, trim, trim_spec, zero_padded,
};

verus! {

/// At most this many filings are listed.
pub const MAX_FILINGS: usize = 25;

/// The `User-Agent` sent when none is configured.
pub const DEFAULT_USER_AGENT: &'static str = "Cosmonic Labs sec-edgar-mcp admin@cosmonic.com";

/// The `www.sec.gov` base used when none is configured.
pub const DEFAULT_BASE_WWW: &'static str = "https://www.sec.gov";

/// The `data.sec.gov` base used when none is configured.
pub const DEFAULT_BASE_DATA: &'static str = "https://data.sec.gov";

/// An EDGAR lookup error: "no such thing" (a normal answer) or an
/// infrastructure failure.
#[derive(Debug)]
pub enum EdgarError {
    NotFound(String),
    Failed(String),
}

/// The text an error is shown as.
pub open spec fn edgar_error_text(e: EdgarError) -> Seq<char> {
    match e {
        EdgarError::NotFound(m) => "No matching SEC EDGAR record: "@ + m@,
        EdgarError::Failed(m) => "SEC EDGAR request failed: "@ + m@,
    }
}

impl EdgarError {
    /// The text this error is shown as in a tool-level error result.
    pub fn message(&self) -> (out: String)
        ensures
            out@ == edgar_error_text(*self),
    {
        let mut out = String::new();
        match self {
            EdgarError::NotFound(m) => {
                push_str(&mut out, "No matching SEC EDGAR record: ");
                push_str(&mut out, m.as_str());
            },
            EdgarError::Failed(m) => {
                push_str(&mut out, "SEC EDGAR request failed: ");
                push_str(&mut out, m.as_str());
            },
        }
        assert(out@ =~= edgar_error_text(*self));
        out
    }
}

/// What a non-200 answer becomes: 404 is a miss, 403 points at the
/// `User-Agent` policy, anything else is a failure. `None` for 200.
pub fn status_error(status: u16, url: &str) -> (out: Option<EdgarError>)
    ensures
        status == 200 ==> out is None,
        status == 404 ==> (out matches Some(EdgarError::NotFound(m)) && m@ == url@),
        status == 403 ==> (out matches Some(EdgarError::Failed(m)) && m@ == "GET "@ + url@
            + ": 403 Forbidden (check SEC_USER_AGENT names a real contact)"@),
        status != 200 && status != 403 && status != 404 ==> (out matches Some(EdgarError::Failed(m))
            && m@ == "GET "@ + url@ + ": unexpected status "@ + crate::text::decimal(status as nat)),
{
    if status == 200 {
        None
    } else if status == 404 {
        Some(EdgarError::NotFound(owned(url)))
    } else if status == 403 {
        let mut m = String::new();
        push_str(&mut m, "GET ");
        push_str(&mut m, url);
        push_str(&mut m, ": 403 Forbidden (check SEC_USER_AGENT names a real contact)");
        Some(EdgarError::Failed(m))
    } else {
        let mut m = String::new();
        push_str(&mut m, "GET ");
        push_str(&mut m, url);
        push_str(&mut m, ": unexpected status ");
        crate::text::push_decimal(&mut m, status as u64);
        Some(EdgarError::Failed(m))
    }
}

/// The ticker table's URL under the `www.sec.gov` base.
pub fn tickers_url(base_www: &str) -> (out: String)
    ensures
        out@ == base_www@ + "/files/company_tickers.json"@,
{
    let mut u = String::new();
    push_str(&mut u, base_www);
    push_str(&mut u, "/files/company_tickers.json");
    u
}

/// A company's submissions document under the `data.sec.gov` base.
pub fn submissions_url(base_data: &str, cik: &str) -> (out: String)
    ensures
        out@ == base_data@ + "/submissions/CIK"@ + cik@ + ".json"@,
{
    let mut u = String::new();
    push_str(&mut u, base_data);
    push_str(&mut u, "/submissions/CIK");
    push_str(&mut u, cik);
    push_str(&mut u, ".json");
    u
}

/// A us-gaap concept of a company under the `data.sec.gov` base.
pub fn concept_url(base_data: &str, cik: &str, tag: &str) -> (out: String)
    ensures
        out@ == base_data@ + "/api/xbrl/companyconcept/CIK"@ + cik@ + "/us-gaap/"@ + tag@ + ".json"@,
{
    let mut u = String::new();
    push_str(&mut u, base_data);
    push_str(&mut u, "/api/xbrl/companyconcept/CIK");
    push_str(&mut u, cik);
    push_str(&mut u, "/us-gaap/");
    push_str(&mut u, tag);
    push_str(&mut u, ".json");
    u
}

/// Arguments of `get_company_facts`.
#[derive(Debug)]
pub struct CompanyFactsParams {
    /// Ticker symbol, e.g. "AAPL".
    pub ticker: String,
    /// Fiscal year to report, e.g. 2024.
    pub year: i32,
    /// Optional us-gaap XBRL concept; omit for a core summary.
    pub concept: Option<String>,
}

/// Arguments of `get_submission_history`.
#[derive(Debug)]
pub struct SubmissionHistoryParams {
    /// Ticker symbol, e.g. "AAPL".
    pub ticker: String,
    /// Optional form filter, e.g. "10-K"; amendments such as "10-K/A" are
    /// included.
    pub form_type: Option<String>,
}

fn owned(s: &str) -> (out: String)
    ensures
        out@ == s@,
{
    s.to_owned()
}

/// Zero-pads a CIK to the 10-digit form EDGAR's data APIs expect.
pub fn pad_cik(cik: u64) -> (out: String)
    ensures
        out@ == zero_padded(cik as nat, 10),
{
    let mut out = String::new();
    push_zero_padded(&mut out, cik, 10);
    assert(out@ =~= zero_padded(cik as nat, 10));
    out
}

/// A ticker as looked up: trimmed and in ASCII uppercase.
pub open spec fn symbol_spec(ticker: Seq<char>) -> Seq<char> {
    ascii_upper_seq(trim_spec(ticker))
}

/// A ticker trimmed and in ASCII uppercase.
pub fn normalize_ticker(ticker: &str) -> (out: String)
    ensures
        out@ == symbol_spec(ticker@),
{
    let t = trim(ticker);
    let u = to_ascii_upper_chars(t.as_slice());
    string_of(u.as_slice())
}

/// Normalizing a ticker twice is normalizing it once: a symbol that is
/// already trimmed and uppercase is looked up as itself.
pub proof fn law_symbol_normalized(ticker: Seq<char>)
    ensures
        symbol_spec(symbol_spec(ticker)) == symbol_spec(ticker),
{
    let x = trim_spec(ticker);
    let u = ascii_upper_seq(x);
    crate::text::lemma_trim_ends(ticker);
    if u.len() > 0 {
        assert(u[0] == crate::text::ascii_upper(x[0]));
        assert(u.last() == crate::text::ascii_upper(x.last()));
        assert(!crate::text::is_whitespace(u[0]));
        assert(!crate::text::is_whitespace(u.last()));
    }
    assert(crate::text::trim_start_spec(u) == u);
    assert(crate::text::trim_end_spec(u) == u);
    assert(ascii_upper_seq(u) =~= u);
}

/// One row of the SEC ticker table.
#[derive(Debug)]
pub struct TickerRecord {
    pub cik_str: u64,
    pub ticker: String,
}

/// The ticker table: uppercase symbol to 10-digit CIK. Rows are kept in the
/// order they were read; a symbol read twice resolves to the later row, as
/// a map insert would have it.
#[derive(Debug)]
pub struct TickerTable {
    entries: Vec<(String, String)>,
}

/// The CIK the last entry keyed `symbol` holds.
pub open spec fn last_match(entries: Seq<(Seq<char>, Seq<char>)>, symbol: Seq<char>) -> Option<Seq<char>>
    decreases entries.len(),
{
    if entries.len() == 0 {
        None
    } else if entries.last().0 == symbol {
        Some(entries.last().1)
    } else {
        last_match(entries.drop_last(), symbol)
    }
}

/// The entries a list of ticker rows makes: rows with an empty ticker are
/// skipped; each other row maps its uppercase ticker to its padded CIK.
pub open spec fn table_entries(rows: Seq<TickerRecord>) -> Seq<(Seq<char>, Seq<char>)>
    decreases rows.len(),
{
    if rows.len() == 0 {
        Seq::empty()
    } else {
        let rest = table_entries(rows.drop_last());
        let r = rows.last();
        if r.ticker@.len() == 0 {
            rest
        } else {
            rest.push((ascii_upper_seq(r.ticker@), zero_padded(r.cik_str as nat, 10)))
        }
    }
}

impl View for TickerTable {
    type V = Seq<(Seq<char>, Seq<char>)>;

    closed spec fn view(&self) -> Seq<(Seq<char>, Seq<char>)> {
        self.entries@.map_values(|e: (String, String)| (e.0@, e.1@))
    }
}

impl TickerTable {
    /// Builds the table from the SEC's rows; refuses a table with no usable
    /// row.
    pub fn from_records(rows: &Vec<TickerRecord>) -> (out: Result<TickerTable, EdgarError>)
        ensures
            table_entries(rows@).len() == 0 ==> (out matches Err(EdgarError::Failed(m))
                && m@ == "EDGAR returned no usable ticker rows"@),
            table_entries(rows@).len() > 0 ==> (out matches Ok(t) && t@ == table_entries(rows@)),
    {
        let mut entries: Vec<(String, String)> = Vec::new();
        let mut i: usize = 0;
        while i < rows.len()
            invariant
                i <= rows.len(),
                entries@.map_values(|e: (String, String)| (e.0@, e.1@)) == table_entries(rows@.take(i as int)),
            decreases rows.len() - i,
        {
            let r = &rows[i];
            assert(rows@.take(i + 1).drop_last() =~= rows@.take(i as int));
            assert(rows@.take(i + 1).last() == *r);
            let t = chars_of(r.ticker.as_str());
            if t.len() > 0 {
                let u = to_ascii_upper_chars(t.as_slice());
                let ghost before = entries@;
                entries.push((string_of(u.as_slice()), pad_cik(r.cik_str)));
                assert(entries@.map_values(|e: (String, String)| (e.0@, e.1@)) =~= before.map_values(
                    |e: (String, String)| (e.0@, e.1@),
                ).push((ascii_upper_seq(r.ticker@), zero_padded(r.cik_str as nat, 10))));
            }
            i = i + 1;
        }
        assert(rows@.take(i as int) =~= rows@);
        if entries.len() == 0 {
            return Err(EdgarError::Failed(owned("EDGAR returned no usable ticker rows")));
        }
        let t = TickerTable { entries };
        Ok(t)
    }

    /// The CIK registered for an uppercase symbol.
    pub fn get(&self, symbol: &str) -> (out: Option<String>)
        ensures
            match out {
                Some(c) => last_match(self@, symbol@) == Some(c@),
                None => last_match(self@, symbol@) is None,
            },
    {
        let mut i: usize = self.entries.len();
        assert(self@.take(i as int) =~= self@);
        while i > 0
            invariant
                i <= self.entries.len(),
                last_match(self@, symbol@) == last_match(self@.take(i as int), symbol@),
            decreases i,
        {
            let e = &self.entries[i - 1];
            assert(self@.take(i as int).drop_last() =~= self@.take(i - 1));
            assert(self@.take(i as int).last() == (e.0@, e.1@));
            if str_eq(e.0.as_str(), symbol) {
                return Some(e.1.clone());
            }
            i = i - 1;
        }
        None
    }
}

/// Resolves a ticker to its 10-digit CIK through the table: the symbol is
/// the ticker trimmed and uppercased; an empty symbol or an unknown one is
/// a `NotFound`.
pub fn resolve_cik(table: &TickerTable, ticker: &str) -> (out: Result<String, EdgarError>)
    ensures
        symbol_spec(ticker@).len() == 0 ==> (out matches Err(EdgarError::NotFound(m))
            && m@ == "ticker must not be empty"@),
        symbol_spec(ticker@).len() > 0 ==> match last_match(table@, symbol_spec(ticker@)) {
            Some(c) => out matches Ok(o) && o@ == c,
            None => out matches Err(EdgarError::NotFound(m))
                && m@ == "no CIK registered for ticker "@ + debug_text(symbol_spec(ticker@)),
        },
{
    let symbol = normalize_ticker(ticker);
    if crate::text::char_count(symbol.as_str()) == 0 {
        return Err(EdgarError::NotFound(owned("ticker must not be empty")));
    }
    match table.get(symbol.as_str()) {
        Some(c) => Ok(c),
        None => {
            let q = debug_quoted(symbol.as_str());
            Err(unregistered_ticker(q.as_str()))
        },
    }
}

/// The error for a symbol the table does not hold, given the symbol as
/// `{:?}` quotes it.
pub fn unregistered_ticker(quoted: &str) -> (out: EdgarError)
    ensures
        out matches EdgarError::NotFound(m) && m@ == "no CIK registered for ticker "@ + quoted@,
{
    let mut m = String::new();
    push_str(&mut m, "no CIK registered for ticker ");
    push_str(&mut m, quoted);
    EdgarError::NotFound(m)
}


// ---------------------------------------------------------------------------
// Submission history
// ---------------------------------------------------------------------------

/// The `filings.recent` columns of a submissions document, as text: a
/// missing or non-string form, accession number, filing date or primary
/// document reads as empty; a missing or non-string report date or
/// description as `None`. Columns may differ in length.
#[derive(Debug)]
pub struct FilingColumns {
    pub forms: Vec<String>,
    pub accessions: Vec<String>,
    pub filing_dates: Vec<String>,
    pub report_dates: Vec<Option<String>>,
    pub primary_docs: Vec<String>,
    pub descriptions: Vec<Option<String>>,
}

/// One listed filing.
#[derive(Debug)]
pub struct Filing {
    pub form: String,
    pub filing_date: String,
    pub report_date: Option<String>,
    pub accession_number: String,
    pub description: Option<String>,
    /// The primary document's URL, when both the accession number and the
    /// document name are known.
    pub url: Option<String>,
}

/// One page of filing history.
#[derive(Debug)]
pub struct FilingsPage {
    /// The form filter applied, normalized.
    pub form_type: Option<String>,
    pub filings: Vec<Filing>,
    /// More filings matched than [`MAX_FILINGS`].
    pub truncated: bool,
}

/// Whether `form` passes the filter `want`: equal to it or an amendment of
/// it (`want/...`), ignoring ASCII case.
pub open spec fn form_matches(form: Seq<char>, want: Option<Seq<char>>) -> bool {
    match want {
        None => true,
        Some(w) => {
            let upper = ascii_upper_seq(form);
            upper == w || (upper.len() >= w.len() + 1 && upper.take(w.len() as int + 1) == w.push('/'))
        },
    }
}

/// The rows among the first `n` whose form passes the filter.
pub open spec fn selected_rows(forms: Seq<String>, want: Option<Seq<char>>, n: int) -> Seq<int>
    decreases n,
{
    if n <= 0 {
        Seq::empty()
    } else {
        let rest = selected_rows(forms, want, n - 1);
        if form_matches(forms[n - 1]@, want) { rest.push(n - 1) } else { rest }
    }
}

/// `s` with its leading `0`s removed.
pub open spec fn strip_leading_zeros(s: Seq<char>) -> Seq<char>
    decreases s.len(),
{
    if s.len() > 0 && s[0] == '0' { strip_leading_zeros(s.drop_first()) } else { s }
}

/// `s` with every `-` removed.
pub open spec fn without_dashes(s: Seq<char>) -> Seq<char>
    decreases s.len(),
{
    if s.len() == 0 {
        s
    } else if s.last() == '-' {
        without_dashes(s.drop_last())
    } else {
        without_dashes(s.drop_last()).push(s.last())
    }
}

/// The URL of a filing's primary document.
pub open spec fn document_url_spec(base: Seq<char>, cik: Seq<char>, acc: Seq<char>, doc: Seq<char>) -> Option<Seq<char>> {
    if acc.len() > 0 && doc.len() > 0 {
        Some(base + "/Archives/edgar/data/"@ + strip_leading_zeros(cik) + "/"@ + without_dashes(acc) + "/"@ + doc)
    } else {
        None
    }
}

/// The form filter as applied: trimmed and uppercased.
pub open spec fn filter_spec(form_type: Option<Seq<char>>) -> Option<Seq<char>> {
    match form_type {
        Some(f) => Some(ascii_upper_seq(trim_spec(f))),
        None => None,
    }
}

/// The number of rows the columns describe: the shortest of the form,
/// accession and filing-date columns.
pub open spec fn row_count(cols: FilingColumns) -> int {
    let a = cols.forms@.len();
    let b = cols.accessions@.len();
    let c = cols.filing_dates@.len();
    if a <= b && a <= c { a as int } else if b <= c { b as int } else { c as int }
}

/// Element `i` of an optional column, if it exists.
pub open spec fn opt_at(col: Seq<Option<String>>, i: int) -> Option<Seq<char>> {
    if 0 <= i < col.len() { match col[i] { Some(s) => Some(s@), None => None } } else { None }
}

/// Element `i` of a text column, empty when it does not exist.
pub open spec fn text_at(col: Seq<String>, i: int) -> Seq<char> {
    if 0 <= i < col.len() { col[i]@ } else { Seq::empty() }
}

/// Whether `f` is the listing of row `i`.
pub open spec fn is_filing_of(f: Filing, cols: FilingColumns, i: int, base: Seq<char>, cik: Seq<char>) -> bool {
    &&& f.form@ == cols.forms@[i]@
    &&& f.filing_date@ == cols.filing_dates@[i]@
    &&& f.accession_number@ == cols.accessions@[i]@
    &&& (match f.report_date { Some(r) => opt_at(cols.report_dates@, i) == Some(r@), None => opt_at(cols.report_dates@, i) is None })
    &&& (match f.description { Some(d) => opt_at(cols.descriptions@, i) == Some(d@), None => opt_at(cols.descriptions@, i) is None })
    &&& (match f.url {
        Some(u) => document_url_spec(base, cik, cols.accessions@[i]@, text_at(cols.primary_docs@, i)) == Some(u@),
        None => document_url_spec(base, cik, cols.accessions@[i]@, text_at(cols.primary_docs@, i)) is None,
    })
}

fn copy_string(s: &String) -> (out: String)
    ensures
        out@ == s@,
{
    s.clone()
}

fn copy_opt(col: &Vec<Option<String>>, i: usize) -> (out: Option<String>)
    ensures
        match out { Some(s) => opt_at(col@, i as int) == Some(s@), None => opt_at(col@, i as int) is None },
{
    if i < col.len() {
        match &col[i] {
            Some(s) => Some(copy_string(s)),
            None => None,
        }
    } else {
        None
    }
}

/// Whether `form` passes the filter `want`.
pub fn form_passes(form: &str, want: &Option<String>) -> (out: bool)
    ensures
        out == form_matches(form@, match want { Some(w) => Some(w@), None => None }),
{
    match want {
        None => true,
        Some(w) => {
            let f = chars_of(form);
            let upper = to_ascii_upper_chars(f.as_slice());
            let wc = chars_of(w.as_str());
            let ghost uw = ascii_upper_seq(form@);
            if upper.len() == wc.len() {
                let mut i: usize = 0;
                while i < wc.len()
                    invariant
                        i <= wc.len(),
                        upper.len() == wc.len(),
                        upper@ == uw,
                        uw == ascii_upper_seq(form@),
                        *want == Some(*w),
                        wc@ == w@,
                        forall|j: int| 0 <= j < i ==> upper@[j] == wc@[j],
                    decreases wc.len() - i,
                {
                    if upper[i] != wc[i] {
                        assert(uw[i as int] != w@[i as int]);
                        assert(uw != w@);
                        return false;
                    }
                    i = i + 1;
                }
                assert(upper@ =~= wc@);
                true
            } else if upper.len() > wc.len() {
                let mut i: usize = 0;
                while i < wc.len()
                    invariant
                        i <= wc.len(),
                        upper.len() >= wc.len() + 1,
                        upper@ == uw,
                        uw == ascii_upper_seq(form@),
                        *want == Some(*w),
                        wc@ == w@,
                        forall|j: int| 0 <= j < i ==> upper@[j] == wc@[j],
                    decreases wc.len() - i,
                {
                    if upper[i] != wc[i] {
                        assert(upper@.take(wc.len() + 1)[i as int] != wc@.push('/')[i as int]);
                        assert(uw.len() != w@.len());
                        return false;
                    }
                    i = i + 1;
                }
                if upper[wc.len()] == '/' {
                    assert(upper@.take(wc.len() + 1) =~= wc@.push('/'));
                    true
                } else {
                    assert(upper@.take(wc.len() + 1)[wc.len() as int] != wc@.push('/')[wc.len() as int]);
                    false
                }
            } else {
                false
            }
        },
    }
}

/// `cik` without its leading zeros, as `str::trim_start_matches('0')`.
pub fn strip_zeros(cik: &str) -> (out: Vec<char>)
    ensures
        out@ == strip_leading_zeros(cik@),
{
    let cs = chars_of(cik);
    let mut i: usize = 0;
    assert(cik@.subrange(0, cik@.len() as int) =~= cik@);
    while i < cs.len() && cs[i] == '0'
        invariant
            i <= cs.len(),
            cs@ == cik@,
            strip_leading_zeros(cik@) == strip_leading_zeros(cik@.subrange(i as int, cik@.len() as int)),
        decreases cs.len() - i,
    {
        assert(cik@.subrange(i as int, cik@.len() as int).drop_first() =~= cik@.subrange(i + 1, cik@.len() as int));
        i = i + 1;
    }
    proof {
        if i == 0 {
            assert(cik@.subrange(0, cik@.len() as int) =~= cik@);
        }
    }
    crate::text::slice_chars(cs.as_slice(), i, cs.len())
}

/// `acc` without its dashes, as `str::replace('-', "")`.
pub fn remove_dashes(acc: &str) -> (out: Vec<char>)
    ensures
        out@ == without_dashes(acc@),
{
    let cs = chars_of(acc);
    let mut out: Vec<char> = Vec::new();
    let mut i: usize = 0;
    while i < cs.len()
        invariant
            i <= cs.len(),
            cs@ == acc@,
            out@ == without_dashes(acc@.take(i as int)),
        decreases cs.len() - i,
    {
        assert(acc@.take(i + 1).drop_last() =~= acc@.take(i as int));
        if cs[i] != '-' {
            out.push(cs[i]);
        }
        i = i + 1;
    }
    assert(acc@.take(i as int) =~= acc@);
    out
}

/// The URL of a filing's primary document under the `www.sec.gov` base.
pub fn document_url(base: &str, cik: &str, acc: &str, doc: &str) -> (out: Option<String>)
    ensures
        match out {
            Some(u) => document_url_spec(base@, cik@, acc@, doc@) == Some(u@),
            None => document_url_spec(base@, cik@, acc@, doc@) is None,
        },
{
    if crate::text::char_count(acc) > 0 && crate::text::char_count(doc) > 0 {
        let strip = strip_zeros(cik);
        let nodash = remove_dashes(acc);
        let mut u = String::new();
        push_str(&mut u, base);
        push_str(&mut u, "/Archives/edgar/data/");
        push_chars(&mut u, strip.as_slice());
        push_str(&mut u, "/");
        push_chars(&mut u, nodash.as_slice());
        push_str(&mut u, "/");
        push_str(&mut u, doc);
        assert(u@ =~= base@ + "/Archives/edgar/data/"@ + strip_leading_zeros(cik@) + "/"@ + without_dashes(acc@) + "/"@ + doc@);
        Some(u)
    } else {
        None
    }
}

/// The normalized form filter.
pub fn normalize_filter(form_type: Option<&str>) -> (out: Option<String>)
    ensures
        match out {
            Some(f) => filter_spec(match form_type { Some(t) => Some(t@), None => None }) == Some(f@),
            None => form_type is None,
        },
{
    match form_type {
        Some(f) => Some(normalize_ticker(f)),
        None => None,
    }
}

/// `get_submission_history`: the most recent filings, newest first as the
/// columns list them, passing the form filter; at most [`MAX_FILINGS`], and
/// `truncated` when more matched.
pub fn filings_page(cols: &FilingColumns, form_type: Option<&str>, base_www: &str, cik: &str) -> (out: FilingsPage)
    ensures
        ({
            let want = filter_spec(match form_type { Some(t) => Some(t@), None => None });
            let sel = selected_rows(cols.forms@, want, row_count(*cols));
            &&& (match out.form_type { Some(f) => want == Some(f@), None => want is None })
            &&& out.truncated == (sel.len() > MAX_FILINGS)
            &&& out.filings@.len() == (if sel.len() > MAX_FILINGS { MAX_FILINGS as int } else { sel.len() as int })
            &&& forall|k: int| 0 <= k < out.filings@.len() ==> is_filing_of(#[trigger] out.filings@[k], *cols, sel[k], base_www@, cik@)
            &&& forall|k: int| #![trigger out.filings@[k]] 0 <= k < out.filings@.len() ==> {
                &&& out.filings@[k].form@ == cols.forms@[sel[k]]@
                &&& out.filings@[k].filing_date@ == cols.filing_dates@[sel[k]]@
                &&& out.filings@[k].accession_number@ == cols.accessions@[sel[k]]@
                &&& (match out.filings@[k].report_date {
                    Some(r) => opt_at(cols.report_dates@, sel[k]) == Some(r@),
                    None => opt_at(cols.report_dates@, sel[k]) is None,
                })
                &&& (match out.filings@[k].description {
                    Some(d) => opt_at(cols.descriptions@, sel[k]) == Some(d@),
                    None => opt_at(cols.descriptions@, sel[k]) is None,
                })
            }
        }),
{
    let want = normalize_filter(form_type);
    let ghost wv = filter_spec(match form_type { Some(t) => Some(t@), None => None });
    assert(match want { Some(w) => Some(w@), None => None::<Seq<char>> } == wv);
    let a = cols.forms.len();
    let b = cols.accessions.len();
    let c = cols.filing_dates.len();
    let count = if a <= b && a <= c { a } else if b <= c { b } else { c };
    let mut filings: Vec<Filing> = Vec::new();
    let mut truncated = false;
    let mut i: usize = 0;
    while i < count
        invariant_except_break
            i <= count,
            count == row_count(*cols),
            count <= cols.forms@.len() && count <= cols.accessions@.len() && count <= cols.filing_dates@.len(),
            (match want { Some(w) => Some(w@), None => None::<Seq<char>> }) == wv,
            !truncated,
            filings@.len() == selected_rows(cols.forms@, wv, i as int).len(),
            filings@.len() <= MAX_FILINGS,
            forall|k: int| 0 <= k < filings@.len() ==> is_filing_of(#[trigger] filings@[k], *cols,
                selected_rows(cols.forms@, wv, i as int)[k], base_www@, cik@),
        ensures
            count == row_count(*cols),
            truncated == (selected_rows(cols.forms@, wv, count as int).len() > MAX_FILINGS),
            filings@.len() == (if selected_rows(cols.forms@, wv, count as int).len() > MAX_FILINGS { MAX_FILINGS as int } else { selected_rows(cols.forms@, wv, count as int).len() as int }),
            forall|k: int| 0 <= k < filings@.len() ==> is_filing_of(#[trigger] filings@[k], *cols,
                selected_rows(cols.forms@, wv, count as int)[k], base_www@, cik@),
        decreases count - i,
    {
        let form = &cols.forms[i];
        if !form_passes(form.as_str(), &want) {
            i = i + 1;
            continue;
        }
        if filings.len() >= MAX_FILINGS {
            truncated = true;
            proof {
                lemma_selected_grows(cols.forms@, wv, i as int + 1, count as int);
                lemma_selected_prefix(cols.forms@, wv, i as int, count as int);
                assert forall|k: int| 0 <= k < filings@.len() implies selected_rows(cols.forms@, wv, count as int)[k]
                    == selected_rows(cols.forms@, wv, i as int)[k] by {
                    assert(selected_rows(cols.forms@, wv, count as int).take(selected_rows(cols.forms@, wv, i as int).len() as int)[k]
                        == selected_rows(cols.forms@, wv, count as int)[k]);
                }
            }
            break;
        }
        let acc = &cols.accessions[i];
        let doc: &str = if i < cols.primary_docs.len() { cols.primary_docs[i].as_str() } else { "" };
        proof {
            if i >= cols.primary_docs.len() {
                reveal_strlit("");
            }
        }
        let url = document_url(base_www, cik, acc.as_str(), doc);
        let ghost before = filings@;
        filings.push(Filing {
            form: copy_string(form),
            filing_date: copy_string(&cols.filing_dates[i]),
            report_date: copy_opt(&cols.report_dates, i),
            accession_number: copy_string(acc),
            description: copy_opt(&cols.descriptions, i),
            url,
        });
        i = i + 1;
        assert forall|k: int| 0 <= k < filings@.len() implies is_filing_of(#[trigger] filings@[k], *cols,
            selected_rows(cols.forms@, wv, i as int)[k], base_www@, cik@) by {
            if k < before.len() {
                assert(filings@[k] == before[k]);
            }
        }
    }
    FilingsPage { form_type: want, filings, truncated }
}

/// The rows matched among the first `i` are the first ones matched among
/// the first `n`.
proof fn lemma_selected_prefix(forms: Seq<String>, want: Option<Seq<char>>, i: int, n: int)
    requires
        0 <= i <= n,
    ensures
        selected_rows(forms, want, i).len() <= selected_rows(forms, want, n).len(),
        selected_rows(forms, want, n).take(selected_rows(forms, want, i).len() as int) == selected_rows(forms, want, i),
    decreases n - i,
{
    if i < n {
        lemma_selected_prefix(forms, want, i, n - 1);
        let a = selected_rows(forms, want, i);
        let b = selected_rows(forms, want, n - 1);
        let c = selected_rows(forms, want, n);
        assert(c.take(a.len() as int) =~= b.take(a.len() as int));
    } else {
        let a = selected_rows(forms, want, i);
        assert(a.take(a.len() as int) =~= a);
    }
}

/// The matched rows only grow as more rows are looked at.
proof fn lemma_selected_grows(forms: Seq<String>, want: Option<Seq<char>>, i: int, n: int)
    requires
        0 <= i <= n,
    ensures
        selected_rows(forms, want, i).len() <= selected_rows(forms, want, n).len(),
    decreases n - i,
{
    if i < n {
        lemma_selected_grows(forms, want, i, n - 1);
    }
}


// ---------------------------------------------------------------------------
// Annual fact selection
// ---------------------------------------------------------------------------

/// One XBRL fact of a companyconcept response, as text: a missing or
/// non-string `form`, `fp`, `end` or `filed` reads as empty; `fy` is the
/// fact's `fy` if it is an integer.
#[derive(Debug)]
pub struct XbrlFact {
    pub form: String,
    pub fy: Option<i64>,
    pub fp: String,
    pub end: String,
    pub filed: String,
}

/// The facts reported in one unit (a key of the response's `units`).
#[derive(Debug)]
pub struct UnitFacts {
    pub unit: String,
    pub facts: Vec<XbrlFact>,
}

/// The year an `end` date names: its first four bytes parsed as an `i32`,
/// when they end on a character boundary.
pub open spec fn end_year_spec(end: Seq<char>) -> Option<i32> {
    let b = encode_utf8(end);
    if is_char_boundary(b, 4) { parse_i32_spec(decode_utf8(b.subrange(0, 4))) } else { None }
}

/// How well a fact answers fiscal year `year`: 3 for an exact `fy` and
/// `fp == "FY"`, 2 for an exact `fy`, 1 for an `end` date in that year, 0
/// when it does not answer it or is not from an annual (10-K) form.
pub open spec fn fact_rank(f: XbrlFact, year: i32) -> int {
    let fy = match f.fy { Some(v) => Some(v as i32), None => None };
    if !(f.form@.len() >= 4 && f.form@.take(4) == "10-K"@) {
        0
    } else if fy == Some(year) && f.fp@ == "FY"@ {
        3
    } else if fy == Some(year) {
        2
    } else if end_year_spec(f.end@) == Some(year) {
        1
    } else {
        0
    }
}

/// The fact at position `(u, i)`.
pub open spec fn fact_at(units: Seq<UnitFacts>, u: int, i: int) -> XbrlFact {
    units[u].facts@[i]
}

/// Whether `(u, i)` names a fact.
pub open spec fn in_range(units: Seq<UnitFacts>, u: int, i: int) -> bool {
    0 <= u < units.len() && 0 <= i < units[u].facts@.len()
}

/// Whether the fact at `(u1, i1)` is preferred over the one at `(u2, i2)`:
/// higher on rank, then the later end date, then the later filed date;
/// a USD fact only breaks ties between facts of the same rank and dates;
/// then the one met first when units are taken in key order, and facts in
/// order.
pub open spec fn preferred(units: Seq<UnitFacts>, year: i32, u1: int, i1: int, u2: int, i2: int) -> bool {
    let a = fact_at(units, u1, i1);
    let b = fact_at(units, u2, i2);
    let ra = fact_rank(a, year);
    let rb = fact_rank(b, year);
    let ua = units[u1].unit@ == "USD"@;
    let ub = units[u2].unit@ == "USD"@;
    let ea = encode_utf8(a.end@);
    let eb = encode_utf8(b.end@);
    let fa = encode_utf8(a.filed@);
    let fb = encode_utf8(b.filed@);
    let na = encode_utf8(units[u1].unit@);
    let nb = encode_utf8(units[u2].unit@);
    ||| ra > rb
    ||| ra == rb && bytes_lt(eb, ea)
    ||| ra == rb && ea == eb && bytes_lt(fb, fa)
    ||| ra == rb && ea == eb && fa == fb && ua && !ub
    ||| ra == rb && ea == eb && fa == fb && ua == ub && bytes_lt(na, nb)
    ||| ra == rb && ea == eb && fa == fb && ua == ub && na == nb && (u1 < u2 || (u1 == u2 && i1 < i2))
}

/// Whether `(u, i)` is a fact that answers the year.
pub open spec fn is_candidate(units: Seq<UnitFacts>, year: i32, u: int, i: int) -> bool {
    in_range(units, u, i) && fact_rank(fact_at(units, u, i), year) > 0
}

/// Whether `(u, i)` comes before position `(pu, pi)` in visiting order.
pub open spec fn visited(u: int, i: int, pu: int, pi: int) -> bool {
    u < pu || (u == pu && i < pi)
}

proof fn lemma_preferred_order(units: Seq<UnitFacts>, year: i32, u1: int, i1: int, u2: int, i2: int, u3: int, i3: int)
    ensures
        preferred(units, year, u1, i1, u2, i2) ==> !preferred(units, year, u2, i2, u1, i1),
        preferred(units, year, u1, i1, u2, i2) && preferred(units, year, u2, i2, u3, i3)
            ==> preferred(units, year, u1, i1, u3, i3),
        (u1 != u2 || i1 != i2) ==> preferred(units, year, u1, i1, u2, i2) || preferred(units, year, u2, i2, u1, i1),
{
    let a = fact_at(units, u1, i1);
    let b = fact_at(units, u2, i2);
    let c = fact_at(units, u3, i3);
    lemma_bytes_lt_order(encode_utf8(a.end@), encode_utf8(b.end@), encode_utf8(c.end@));
    lemma_bytes_lt_order(encode_utf8(b.end@), encode_utf8(a.end@), encode_utf8(c.end@));
    lemma_bytes_lt_order(encode_utf8(a.filed@), encode_utf8(b.filed@), encode_utf8(c.filed@));
    lemma_bytes_lt_order(encode_utf8(b.filed@), encode_utf8(a.filed@), encode_utf8(c.filed@));
    lemma_bytes_lt_order(encode_utf8(units[u1].unit@), encode_utf8(units[u2].unit@), encode_utf8(units[u3].unit@));
    lemma_bytes_lt_order(encode_utf8(units[u2].unit@), encode_utf8(units[u1].unit@), encode_utf8(units[u3].unit@));
    lemma_bytes_lt_order(encode_utf8(b.end@), encode_utf8(c.end@), encode_utf8(a.end@));
    lemma_bytes_lt_order(encode_utf8(b.filed@), encode_utf8(c.filed@), encode_utf8(a.filed@));
    lemma_bytes_lt_order(encode_utf8(units[u2].unit@), encode_utf8(units[u3].unit@), encode_utf8(units[u1].unit@));
    lemma_bytes_lt_order(encode_utf8(c.end@), encode_utf8(b.end@), encode_utf8(a.end@));
    lemma_bytes_lt_order(encode_utf8(c.filed@), encode_utf8(b.filed@), encode_utf8(a.filed@));
    lemma_bytes_lt_order(encode_utf8(units[u3].unit@), encode_utf8(units[u2].unit@), encode_utf8(units[u1].unit@));
}

fn starts_with_10k(form: &str) -> (out: bool)
    ensures
        out == (form@.len() >= 4 && form@.take(4) == "10-K"@),
{
    let cs = chars_of(form);
    proof { reveal_strlit("10-K"); }
    if cs.len() >= 4 && cs[0] == '1' && cs[1] == '0' && cs[2] == '-' && cs[3] == 'K' {
        assert(form@.take(4) =~= "10-K"@);
        true
    } else {
        proof {
            if form@.len() >= 4 && form@.take(4) == "10-K"@ {
                assert(form@.take(4)[0] == '1' && form@.take(4)[1] == '0');
                assert(form@.take(4)[2] == '-' && form@.take(4)[3] == 'K');
            }
        }
        false
    }
}

/// The year of an `end` date.
pub fn end_year(end: &str) -> (out: Option<i32>)
    ensures
        out == end_year_spec(end@),
{
    if end.is_char_boundary(4) {
        let (head, _) = end.split_at(4);
        let cs = chars_of(head);
        proof {
            vstd::utf8::encode_utf8_decode_utf8(head@);
        }
        parse_i32(cs.as_slice())
    } else {
        None
    }
}

/// How well a fact answers fiscal year `year` (0: not at all).
pub fn rank_fact(f: &XbrlFact, year: i32) -> (out: u8)
    ensures
        out as int == fact_rank(*f, year),
{
    if !starts_with_10k(f.form.as_str()) {
        return 0;
    }
    let fy: Option<i32> = match f.fy {
        Some(v) => Some(v as i32),
        None => None,
    };
    let exact = match fy {
        Some(v) => v == year,
        None => false,
    };
    if exact && str_eq(f.fp.as_str(), "FY") {
        3
    } else if exact {
        2
    } else if end_year(f.end.as_str()) == Some(year) {
        1
    } else {
        0
    }
}

fn prefers(units: &Vec<UnitFacts>, year: i32, u1: usize, i1: usize, r1: u8, u2: usize, i2: usize, r2: u8) -> (out: bool)
    requires
        in_range(units@, u1 as int, i1 as int),
        in_range(units@, u2 as int, i2 as int),
        r1 as int == fact_rank(fact_at(units@, u1 as int, i1 as int), year),
        r2 as int == fact_rank(fact_at(units@, u2 as int, i2 as int), year),
    ensures
        out == preferred(units@, year, u1 as int, i1 as int, u2 as int, i2 as int),
{
    let a = &units[u1].facts[i1];
    let b = &units[u2].facts[i2];
    let ua = str_eq(units[u1].unit.as_str(), "USD");
    let ub = str_eq(units[u2].unit.as_str(), "USD");
    let ea = a.end.as_str().as_bytes();
    let eb = b.end.as_str().as_bytes();
    let fa = a.filed.as_str().as_bytes();
    let fb = b.filed.as_str().as_bytes();
    let na = units[u1].unit.as_str().as_bytes();
    let nb = units[u2].unit.as_str().as_bytes();
    proof {
        lemma_bytes_lt_order(ea@, eb@, fa@);
        lemma_bytes_lt_order(fa@, fb@, ea@);
        lemma_bytes_lt_order(na@, nb@, ea@);
    }
    if r1 != r2 {
        return r1 > r2;
    }
    if !bytes_equal(ea, eb) {
        return bytes_less(eb, ea);
    }
    if !bytes_equal(fa, fb) {
        return bytes_less(fb, fa);
    }
    if ua != ub {
        return ua;
    }
    if !bytes_equal(na, nb) {
        return bytes_less(na, nb);
    }
    u1 < u2 || (u1 == u2 && i1 < i2)
}

/// What the scan of `select_annual` knows when it reaches `(pu, pi)`:
/// `best` is the preferred candidate among those visited, if any.
pub open spec fn scan_state(units: Seq<UnitFacts>, year: i32, best: Option<(usize, usize, u8)>, pu: int, pi: int) -> bool {
    match best {
        None => forall|u2: int, i2: int| #[trigger] visited(u2, i2, pu, pi) ==> !is_candidate(units, year, u2, i2),
        Some((bu, bi, br)) => {
            &&& is_candidate(units, year, bu as int, bi as int)
            &&& br as int == fact_rank(fact_at(units, bu as int, bi as int), year)
            &&& visited(bu as int, bi as int, pu, pi)
            &&& forall|u2: int, i2: int| visited(u2, i2, pu, pi) && is_candidate(units, year, u2, i2)
                && (u2 != bu || i2 != bi) ==> !#[trigger] preferred(units, year, u2, i2, bu as int, bi as int)
        },
    }
}

/// Picks the best annual (10-K) fact for `year`: the highest rank, where
/// rank prefers an exact `fy` with `fp == "FY"`, then an exact `fy`, then
/// an `end` date in that year; then the latest `end`, then the latest
/// `filed` date; a USD fact wins a tie of rank and dates; remaining ties go
/// to the fact visited first (units in key order).
/// Returns its position (unit index, fact index), or `None` when no fact
/// answers the year.
pub fn select_annual(units: &Vec<UnitFacts>, year: i32) -> (out: Option<(usize, usize)>)
    ensures
        match out {
            None => forall|u: int, i: int| !is_candidate(units@, year, u, i),
            Some((u, i)) => is_candidate(units@, year, u as int, i as int)
                && forall|u2: int, i2: int| is_candidate(units@, year, u2, i2) && (u2 != u || i2 != i)
                    ==> !#[trigger] preferred(units@, year, u2, i2, u as int, i as int),
        },
{
    let mut best: Option<(usize, usize, u8)> = None;
    let mut u: usize = 0;
    while u < units.len()
        invariant
            u <= units.len(),
            scan_state(units@, year, best, u as int, 0),
        decreases units.len() - u,
    {
        let facts = &units[u].facts;
        let mut i: usize = 0;
        assert forall|u2: int, i2: int| #[trigger] visited(u2, i2, u as int, 0) == visited(u2, i2, u as int, i as int) by {}
        while i < facts.len()
            invariant
                u < units.len(),
                i <= facts.len(),
                facts == units@[u as int].facts,
                scan_state(units@, year, best, u as int, i as int),
            decreases facts.len() - i,
        {
            let r = rank_fact(&facts[i], year);
            let ghost old_best = best;
            if r > 0 {
                match best {
                    None => {
                        best = Some((u, i, r));
                    },
                    Some((bu, bi, br)) => {
                        if prefers(units, year, u, i, r, bu, bi, br) {
                            proof {
                                assert forall|u2: int, i2: int| visited(u2, i2, u as int, i + 1) && is_candidate(units@, year, u2, i2)
                                    && (u2 != u || i2 != i) implies !#[trigger] preferred(units@, year, u2, i2, u as int, i as int) by {
                                    lemma_preferred_order(units@, year, u2, i2, u as int, i as int, bu as int, bi as int);
                                    lemma_preferred_order(units@, year, u as int, i as int, bu as int, bi as int, u2, i2);
                                    if u2 != bu || i2 != bi {
                                        assert(visited(u2, i2, u as int, i as int));
                                    }
                                }
                            }
                            best = Some((u, i, r));
                        } else {
                            proof {
                                lemma_preferred_order(units@, year, u as int, i as int, bu as int, bi as int, u as int, i as int);
                                assert forall|u2: int, i2: int| visited(u2, i2, u as int, i + 1) && is_candidate(units@, year, u2, i2)
                                    && (u2 != bu || i2 != bi) implies !#[trigger] preferred(units@, year, u2, i2, bu as int, bi as int) by {
                                    if u2 != u || i2 != i {
                                        assert(visited(u2, i2, u as int, i as int));
                                    }
                                }
                            }
                        }
                    },
                }
            }
            proof {
                match old_best {
                    None => {
                        assert forall|u2: int, i2: int| #[trigger] visited(u2, i2, u as int, i + 1) && (u2 != u || i2 != i)
                            implies !is_candidate(units@, year, u2, i2) by {
                            assert(visited(u2, i2, u as int, i as int));
                        }
                        if r == 0 {
                            assert(!is_candidate(units@, year, u as int, i as int));
                        } else {
                            assert forall|u2: int, i2: int| visited(u2, i2, u as int, i + 1) && is_candidate(units@, year, u2, i2)
                                && (u2 != u || i2 != i) implies !#[trigger] preferred(units@, year, u2, i2, u as int, i as int) by {
                                assert(visited(u2, i2, u as int, i as int));
                            }
                        }
                    },
                    Some((bu, bi, br)) => {
                        if r == 0 {
                            assert(!is_candidate(units@, year, u as int, i as int));
                            assert forall|u2: int, i2: int| visited(u2, i2, u as int, i + 1) && is_candidate(units@, year, u2, i2)
                                && (u2 != bu || i2 != bi) implies !#[trigger] preferred(units@, year, u2, i2, bu as int, bi as int) by {
                                assert(visited(u2, i2, u as int, i as int));
                            }
                        }
                    },
                }
            }
            i = i + 1;
        }
        proof {
            assert forall|u2: int, i2: int| #[trigger] visited(u2, i2, u + 1, 0) && is_candidate(units@, year, u2, i2)
                implies visited(u2, i2, u as int, i as int) by {}
            match best {
                None => {},
                Some((bu, bi, br)) => { assert(visited(bu as int, bi as int, u + 1, 0)); },
            }
        }
        u = u + 1;
    }
    match best {
        None => {
            assert forall|u2: int, i2: int| !is_candidate(units@, year, u2, i2) by {
                if is_candidate(units@, year, u2, i2) {
                    assert(visited(u2, i2, u as int, 0));
                }
            }
            None
        },
        Some((bu, bi, _)) => {
            assert forall|u2: int, i2: int| is_candidate(units@, year, u2, i2) && (u2 != bu || i2 != bi)
                implies !#[trigger] preferred(units@, year, u2, i2, bu as int, bi as int) by {
                assert(visited(u2, i2, u as int, 0));
            }
            Some((bu, bi))
        },
    }
}


// ---------------------------------------------------------------------------
// Company facts: concept groups and their fallback chains
// ---------------------------------------------------------------------------

/// A concept group of the facts report: its name and the us-gaap tags
/// tried in order until one yields an annual fact.
#[derive(Debug)]
pub struct ConceptGroup {
    pub name: String,
    pub tags: Vec<String>,
}

/// Whether `g` is the group named `name` with the tags `tags`, in order.
pub open spec fn group_is(g: ConceptGroup, name: Seq<char>, tags: Seq<Seq<char>>) -> bool {
    &&& g.name@ == name
    &&& g.tags@.len() == tags.len()
    &&& forall|k: int| 0 <= k < tags.len() ==> #[trigger] g.tags@[k]@ == tags[k]
}

/// Whether every group has at least one tag to try.
pub open spec fn groups_have_tags(groups: Seq<ConceptGroup>) -> bool {
    forall|g: int| 0 <= g < groups.len() ==> #[trigger] groups[g].tags@.len() > 0
}

/// The groups of the core summary, each with its fallback chain.
pub open spec fn is_summary(groups: Seq<ConceptGroup>) -> bool {
    &&& groups.len() == 6
    &&& group_is(groups[0], "Assets"@, seq!["Assets"@])
    &&& group_is(groups[1], "Liabilities"@, seq!["Liabilities"@])
    &&& group_is(groups[2], "StockholdersEquity"@, seq!["StockholdersEquity"@])
    &&& group_is(groups[3], "Revenues"@, seq![
        "RevenueFromContractWithCustomerExcludingAssessedTax"@,
        "Revenues"@,
        "SalesRevenueNet"@,
    ])
    &&& group_is(groups[4], "NetIncomeLoss"@, seq!["NetIncomeLoss"@])
    &&& group_is(groups[5], "EarningsPerShareDiluted"@, seq!["EarningsPerShareDiluted"@])
}

fn single_group(name: &str) -> (out: ConceptGroup)
    ensures
        group_is(out, name@, seq![name@]),
{
    let mut tags: Vec<String> = Vec::new();
    tags.push(owned(name));
    ConceptGroup { name: owned(name), tags }
}

/// The concept groups of the core summary: Assets, Liabilities,
/// StockholdersEquity, Revenues (tried as
/// RevenueFromContractWithCustomerExcludingAssessedTax, then Revenues, then
/// SalesRevenueNet), NetIncomeLoss and EarningsPerShareDiluted.
pub fn summary_groups() -> (out: Vec<ConceptGroup>)
    ensures
        is_summary(out@),
        groups_have_tags(out@),
{
    let mut out: Vec<ConceptGroup> = Vec::new();
    out.push(single_group("Assets"));
    out.push(single_group("Liabilities"));
    out.push(single_group("StockholdersEquity"));
    let mut revenue_tags: Vec<String> = Vec::new();
    revenue_tags.push(owned("RevenueFromContractWithCustomerExcludingAssessedTax"));
    revenue_tags.push(owned("Revenues"));
    revenue_tags.push(owned("SalesRevenueNet"));
    let revenues = ConceptGroup { name: owned("Revenues"), tags: revenue_tags };
    assert(group_is(revenues, "Revenues"@, seq![
        "RevenueFromContractWithCustomerExcludingAssessedTax"@,
        "Revenues"@,
        "SalesRevenueNet"@,
    ]));
    out.push(revenues);
    out.push(single_group("NetIncomeLoss"));
    out.push(single_group("EarningsPerShareDiluted"));
    proof {
        assert forall|g: int| 0 <= g < out@.len() implies #[trigger] out@[g].tags@.len() > 0 by {
            assert(g == 0 || g == 1 || g == 2 || g == 3 || g == 4 || g == 5);
        }
    }
    out
}

/// The groups a facts request fetches: with a concept, that concept alone
/// (trimmed), refused when empty; without one, the core summary.
pub fn fact_groups(concept: Option<&str>) -> (out: Result<Vec<ConceptGroup>, EdgarError>)
    ensures
        match concept {
            Some(c) => if trim_spec(c@).len() == 0 {
                out matches Err(EdgarError::NotFound(m)) && m@ == "concept must not be empty"@
            } else {
                out matches Ok(g) && g@.len() == 1 && group_is(g@[0], trim_spec(c@), seq![trim_spec(c@)])
            },
            None => out matches Ok(g) && is_summary(g@),
        },
        out matches Ok(g) ==> groups_have_tags(g@),
{
    match concept {
        Some(c) => {
            let t = trim(c);
            if t.len() == 0 {
                return Err(EdgarError::NotFound(owned("concept must not be empty")));
            }
            let name = string_of(t.as_slice());
            let mut out: Vec<ConceptGroup> = Vec::new();
            out.push(single_group(name.as_str()));
            Ok(out)
        },
        None => Ok(summary_groups()),
    }
}

/// What one companyconcept fetch gave.
#[derive(Debug)]
pub enum TagOutcome<M> {
    /// The document came back: its `entityName`, and the annual fact
    /// selected from it, if any.
    Answered { entity_name: Option<String>, metric: Option<M> },
    /// EDGAR has no such document (a 404).
    NotFound,
    /// The fetch failed for another reason.
    Failed(String),
}

/// Where a facts report stands: the groups, the group and tag to fetch
/// next, and what has been gathered so far.
#[derive(Debug)]
pub struct FactsScan<M> {
    pub groups: Vec<ConceptGroup>,
    pub group: usize,
    pub tag: usize,
    pub metrics: Vec<M>,
    pub missing: Vec<String>,
    pub entity_name: Option<String>,
}

/// The finished facts report, less the CIK and the year, which the caller
/// knows.
#[derive(Debug)]
pub struct FactsReport<M> {
    /// The ticker, trimmed and uppercased.
    pub ticker: String,
    pub entity_name: Option<String>,
    /// One metric per group that had an annual fact, in group order.
    pub metrics: Vec<M>,
    /// The names of the groups that had none, in group order.
    pub missing: Vec<String>,
}

/// The texts of a list of strings.
pub open spec fn texts(v: Seq<String>) -> Seq<Seq<char>> {
    v.map_values(|s: String| s@)
}

/// The entity name kept after a document answered: the first one seen.
pub open spec fn kept_name(old_name: Option<String>, seen: Option<String>) -> Option<String> {
    if old_name is Some { old_name } else { seen }
}

/// The message of a report that found nothing for its one group.
pub open spec fn nothing_reported(ticker: Seq<char>, group: Seq<char>, year: i32) -> Seq<char> {
    symbol_spec(ticker) + " reported no "@ + group + " for fiscal year "@ + crate::text::signed_decimal(year as int)
}

impl<M> FactsScan<M> {
    /// The scan's bookkeeping holds together: the cursor is on a tag of an
    /// unfinished group, or past the last group; each finished group gave
    /// either a metric or a missing entry.
    pub open spec fn wf(&self) -> bool {
        &&& groups_have_tags(self.groups@)
        &&& self.group <= self.groups@.len()
        &&& self.group < self.groups@.len() ==> self.tag < self.groups@[self.group as int].tags@.len()
        &&& self.group == self.groups@.len() ==> self.tag == 0
        &&& self.metrics@.len() + self.missing@.len() == self.group
    }

    /// Whether every group has been settled.
    pub open spec fn done(&self) -> bool {
        self.group == self.groups@.len()
    }

    /// A scan at the first tag of the first group, with nothing gathered.
    pub fn new(groups: Vec<ConceptGroup>) -> (out: Self)
        requires
            groups_have_tags(groups@),
        ensures
            out.wf(),
            out.groups@ == groups@,
            out.group == 0,
            out.tag == 0,
            out.metrics@.len() == 0,
            out.missing@.len() == 0,
            out.entity_name is None,
    {
        FactsScan { groups, group: 0, tag: 0, metrics: Vec::new(), missing: Vec::new(), entity_name: None }
    }

    /// The group name and tag to fetch next, or `None` when every group is
    /// settled.
    pub fn pending(&self) -> (out: Option<(String, String)>)
        requires
            self.wf(),
        ensures
            self.done() ==> out is None,
            !self.done() ==> (out matches Some((n, t))
                && n@ == self.groups@[self.group as int].name@
                && t@ == self.groups@[self.group as int].tags@[self.tag as int]@),
    {
        if self.group < self.groups.len() {
            let g = &self.groups[self.group];
            Some((copy_string(&g.name), copy_string(&g.tags[self.tag])))
        } else {
            None
        }
    }

    /// Moves past the current tag: to the group's next tag, or, when the
    /// chain is exhausted, to the next group with this one listed missing.
    fn skip_tag(&mut self)
        requires
            old(self).wf(),
            !old(self).done(),
        ensures
            final(self).wf(),
            final(self).groups@ == old(self).groups@,
            final(self).metrics@ == old(self).metrics@,
            final(self).entity_name == old(self).entity_name,
            old(self).tag + 1 < old(self).groups@[old(self).group as int].tags@.len() ==> {
                &&& final(self).group == old(self).group
                &&& final(self).tag == old(self).tag + 1
                &&& final(self).missing@ == old(self).missing@
            },
            old(self).tag + 1 >= old(self).groups@[old(self).group as int].tags@.len() ==> {
                &&& final(self).group == old(self).group + 1
                &&& final(self).tag == 0
                &&& texts(final(self).missing@) == texts(old(self).missing@).push(
                    old(self).groups@[old(self).group as int].name@)
            },
    {
        let n = self.groups[self.group].tags.len();
        assert(self.group < self.groups.len());
        if self.tag < n - 1 {
            self.tag = self.tag + 1;
        } else {
            let name = copy_string(&self.groups[self.group].name);
            let ghost before = self.missing@;
            self.missing.push(name);
            assert(texts(self.missing@) =~= texts(before).push(self.groups@[self.group as int].name@));
            self.group = self.group + 1;
            self.tag = 0;
            proof {
                if self.group < self.groups@.len() {
                    assert(self.groups@[self.group as int].tags@.len() > 0);
                }
            }
        }
    }

    /// Takes in what the fetch of the pending tag gave. A failed fetch
    /// ends the report with its error and leaves the scan as it was. A
    /// document that answered sets the entity name if none was seen yet;
    /// with a metric, the group is settled with it and the scan moves to
    /// the next group. A document without an annual fact, or a missing
    /// one, moves to the group's next tag, or, at the end of its chain,
    /// lists the group missing and moves on.
    pub fn advance(&mut self, outcome: TagOutcome<M>) -> (out: Result<(), EdgarError>)
        requires
            old(self).wf(),
            !old(self).done(),
        ensures
            match outcome {
                TagOutcome::Failed(msg) => out == Err::<(), EdgarError>(EdgarError::Failed(msg))
                    && *final(self) == *old(self),
                TagOutcome::Answered { entity_name, metric: Some(m) } => {
                    &&& out is Ok
                    &&& final(self).wf()
                    &&& final(self).groups@ == old(self).groups@
                    &&& final(self).entity_name == kept_name(old(self).entity_name, entity_name)
                    &&& final(self).metrics@ == old(self).metrics@.push(m)
                    &&& final(self).missing@ == old(self).missing@
                    &&& final(self).group == old(self).group + 1
                    &&& final(self).tag == 0
                },
                _ => {
                    &&& out is Ok
                    &&& final(self).wf()
                    &&& final(self).groups@ == old(self).groups@
                    &&& final(self).entity_name == match outcome {
                        TagOutcome::Answered { entity_name, metric: _ } => kept_name(old(self).entity_name, entity_name),
                        _ => old(self).entity_name,
                    }
                    &&& final(self).metrics@ == old(self).metrics@
                    &&& old(self).tag + 1 < old(self).groups@[old(self).group as int].tags@.len() ==> {
                        &&& final(self).group == old(self).group
                        &&& final(self).tag == old(self).tag + 1
                        &&& final(self).missing@ == old(self).missing@
                    }
                    &&& old(self).tag + 1 >= old(self).groups@[old(self).group as int].tags@.len() ==> {
                        &&& final(self).group == old(self).group + 1
                        &&& final(self).tag == 0
                        &&& texts(final(self).missing@) == texts(old(self).missing@).push(
                            old(self).groups@[old(self).group as int].name@)
                    }
                },
            },
    {
        match outcome {
            TagOutcome::Failed(msg) => Err(EdgarError::Failed(msg)),
            TagOutcome::NotFound => {
                self.skip_tag();
                Ok(())
            },
            TagOutcome::Answered { entity_name, metric } => {
                if self.entity_name.is_none() {
                    self.entity_name = entity_name;
                }
                match metric {
                    Some(m) => {
                        assert(self.group < self.groups.len());
                        self.metrics.push(m);
                        self.group = self.group + 1;
                        self.tag = 0;
                        proof {
                            if self.group < self.groups@.len() {
                                assert(self.groups@[self.group as int].tags@.len() > 0);
                            }
                        }
                    },
                    None => {
                        self.skip_tag();
                    },
                }
                Ok(())
            },
        }
    }

    /// The report once every group is settled; refused as `NotFound` when
    /// the request named one concept and it had no annual fact.
    pub fn finish(self, ticker: &str, year: i32) -> (out: Result<FactsReport<M>, EdgarError>)
        requires
            self.wf(),
            self.done(),
        ensures
            self.metrics@.len() == 0 && self.groups@.len() == 1 ==> (out matches Err(EdgarError::NotFound(m))
                && m@ == nothing_reported(ticker@, self.groups@[0].name@, year)),
            !(self.metrics@.len() == 0 && self.groups@.len() == 1) ==> (out matches Ok(r)
                && r.ticker@ == symbol_spec(ticker@)
                && r.entity_name == self.entity_name
                && r.metrics@ == self.metrics@
                && r.missing@ == self.missing@),
    {
        let symbol = normalize_ticker(ticker);
        if self.metrics.len() == 0 && self.groups.len() == 1 {
            let mut m = String::new();
            push_str(&mut m, symbol.as_str());
            push_str(&mut m, " reported no ");
            push_str(&mut m, self.groups[0].name.as_str());
            push_str(&mut m, " for fiscal year ");
            crate::text::push_signed(&mut m, year as i64);
            assert(m@ =~= nothing_reported(ticker@, self.groups@[0].name@, year));
            return Err(EdgarError::NotFound(m));
        }
        Ok(FactsReport {
            ticker: symbol,
            entity_name: self.entity_name,
            metrics: self.metrics,
            missing: self.missing,
        })
    }
}

/// Every group of a finished scan is settled exactly once: the report has
/// one metric or one missing entry per group.
pub proof fn law_scan_settles_every_group<M>(scan: FactsScan<M>)
    requires
        scan.wf(),
        scan.done(),
    ensures
        scan.metrics@.len() + scan.missing@.len() == scan.groups@.len(),
{
}

} // verus!
