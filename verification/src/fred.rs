//! FRED (Federal Reserve Economic Data) requests: percent-encoding, the
//! query every request carries, and the three endpoints.
//!
//! `api_key` and `file_type=json` are always supplied; the key is a query
//! parameter (never a header), taken from the environment by the caller.
use vstd::prelude::*;
use vstd::utf8::encode_utf8;
use crate::text::{decimal, push_char, push_decimal, push_str};

verus! {

/// A FRED client error, surfaced to the caller as a tool-level error.
#[derive(Debug)]
pub enum FredError {
    /// `FRED_API_KEY` is not configured.
    MissingKey,
    /// The request failed or the API returned a non-2xx status.
    Request(String),
}

/// The text shown for a missing key.
pub const MISSING_KEY_MESSAGE: &'static str = "FRED_API_KEY is not set. Get a free key at https://fred.stlouisfed.org/docs/api/api_key.html and set it in the workload environment (or via a Cosmonic secret).";

/// The text an error is shown as.
pub open spec fn fred_error_text(e: FredError) -> Seq<char> {
    match e {
        FredError::MissingKey => MISSING_KEY_MESSAGE@,
        FredError::Request(msg) => "FRED request failed: "@ + msg@,
    }
}

impl FredError {
    /// The text this error is shown as.
    pub fn message(&self) -> (out: String)
        ensures
            out@ == fred_error_text(*self),
    {
        let mut out = String::new();
        match self {
            FredError::MissingKey => push_str(&mut out, MISSING_KEY_MESSAGE),
            FredError::Request(msg) => {
                push_str(&mut out, "FRED request failed: ");
                push_str(&mut out, msg.as_str());
            },
        }
        assert(out@ =~= fred_error_text(*self));
        out
    }
}

/// The error for a non-2xx answer: the status line as the HTTP library
/// shows it (e.g. `400 Bad Request`) and the detail, which is FRED's
/// `error_message` when the body carries one, else the body itself.
pub fn http_failure(status: &str, detail: &str) -> (out: FredError)
    ensures
        out matches FredError::Request(m) && m@ == "HTTP "@ + status@ + ": "@ + detail@,
{
    let mut m = String::new();
    push_str(&mut m, "HTTP ");
    push_str(&mut m, status);
    push_str(&mut m, ": ");
    push_str(&mut m, detail);
    assert(m@ =~= "HTTP "@ + status@ + ": "@ + detail@);
    FredError::Request(m)
}

/// Arguments of `search_series`.
#[derive(Debug)]
pub struct SearchSeriesParams {
    /// Free-text search, e.g. "real gross domestic product".
    pub query: String,
}

/// Arguments of `get_series`.
#[derive(Debug)]
pub struct GetSeriesParams {
    /// The FRED series ID, e.g. "UNRATE".
    pub series_id: String,
}

/// Arguments of `get_series_observations`.
#[derive(Debug)]
pub struct GetObservationsParams {
    /// The FRED series ID, e.g. "UNRATE".
    pub series_id: String,
    /// Maximum number of observations to return, newest first (default 10).
    pub limit: Option<u32>,
}

// ---------------------------------------------------------------------------
// Percent-encoding
// ---------------------------------------------------------------------------

/// Whether a byte is in the unreserved set `A-Za-z0-9-_.~`.
pub open spec fn is_unreserved(b: u8) -> bool {
    (65 <= b && b <= 90) || (97 <= b && b <= 122) || (48 <= b && b <= 57) || b == 45 || b == 95 || b == 46
        || b == 126
}

/// The uppercase hex digit for `d` (`0 <= d < 16`).
pub open spec fn upper_hex_char(d: nat) -> char {
    if d < 10 { ((48 + d) as u8) as char } else { ((55 + d) as u8) as char }
}

/// One byte percent-encoded: itself if unreserved, else `%XX` in uppercase
/// hex.
pub open spec fn encode_byte(b: u8) -> Seq<char> {
    if is_unreserved(b) {
        seq![b as char]
    } else {
        seq!['%', upper_hex_char((b / 16) as nat), upper_hex_char((b % 16) as nat)]
    }
}

/// A byte string percent-encoded byte by byte.
pub open spec fn percent_encode(bytes: Seq<u8>) -> Seq<char>
    decreases bytes.len(),
{
    if bytes.len() == 0 {
        Seq::empty()
    } else {
        percent_encode(bytes.drop_last()) + encode_byte(bytes.last())
    }
}

/// Whether `c` may stand in a percent-encoded value: an unreserved ASCII
/// character or `%`.
pub open spec fn url_safe(c: char) -> bool {
    ('A' <= c && c <= 'Z') || ('a' <= c && c <= 'z') || ('0' <= c && c <= '9') || c == '-' || c == '_'
        || c == '.' || c == '~' || c == '%'
}

proof fn lemma_percent_encode_safe(bytes: Seq<u8>)
    ensures
        forall|i: int| 0 <= i < percent_encode(bytes).len() ==> url_safe(#[trigger] percent_encode(bytes)[i]),
    decreases bytes.len(),
{
    if bytes.len() > 0 {
        lemma_percent_encode_safe(bytes.drop_last());
        let b = bytes.last();
        let head = percent_encode(bytes.drop_last());
        let e = encode_byte(b);
        assert forall|i: int| 0 <= i < e.len() implies url_safe(#[trigger] e[i]) by {
            if is_unreserved(b) {
                assert(e[i] == b as char);
            } else {
                let hi = (b / 16) as nat;
                let lo = (b % 16) as nat;
                assert(e[i] == '%' || e[i] == upper_hex_char(hi) || e[i] == upper_hex_char(lo));
            }
        }
        assert forall|i: int| 0 <= i < percent_encode(bytes).len() implies url_safe(#[trigger] percent_encode(bytes)[i]) by {
            if i < head.len() {
                assert(percent_encode(bytes)[i] == head[i]);
            } else {
                assert(percent_encode(bytes)[i] == e[i - head.len()]);
            }
        }
    }
}

/// A percent-encoded value holds only unreserved ASCII characters and `%`,
/// so it can stand in a query string as it is.
pub proof fn law_encoding_is_url_safe(s: Seq<char>)
    ensures
        forall|i: int| 0 <= i < utf8_percent(s).len() ==> url_safe(#[trigger] utf8_percent(s)[i]),
{
    lemma_percent_encode_safe(encode_utf8(s));
}

fn upper_hex(d: u8) -> (out: char)
    requires
        d < 16,
    ensures
        out == upper_hex_char(d as nat),
{
    if d < 10 { (48 + d) as char } else { (55 + d) as char }
}

/// A string's UTF-8 bytes, percent-encoded.
pub open spec fn utf8_percent(s: Seq<char>) -> Seq<char> {
    percent_encode(encode_utf8(s))
}

/// Percent-encodes a query-parameter value: every UTF-8 byte outside the
/// unreserved set `A-Za-z0-9-_.~` becomes `%XX` (uppercase hex).
pub fn encode(value: &str) -> (out: String)
    ensures
        out@ == utf8_percent(value@),
{
    let bytes = value.as_bytes();
    let mut out = String::new();
    let mut i: usize = 0;
    while i < bytes.len()
        invariant
            i <= bytes.len(),
            bytes@ == encode_utf8(value@),
            out@ == percent_encode(bytes@.take(i as int)),
        decreases bytes.len() - i,
    {
        let b = bytes[i];
        assert(bytes@.take(i + 1).drop_last() =~= bytes@.take(i as int));
        assert(bytes@.take(i + 1).last() == b);
        if (65 <= b && b <= 90) || (97 <= b && b <= 122) || (48 <= b && b <= 57) || b == 45 || b == 95
            || b == 46 || b == 126 {
            push_char(&mut out, b as char);
        } else {
            push_char(&mut out, '%');
            push_char(&mut out, upper_hex(b / 16));
            push_char(&mut out, upper_hex(b % 16));
        }
        i = i + 1;
        assert(out@ =~= percent_encode(bytes@.take(i as int)));
    }
    assert(bytes@.take(i as int) =~= bytes@);
    out
}

// ---------------------------------------------------------------------------
// Requests
// ---------------------------------------------------------------------------

/// The FRED host used when none is configured.
pub const DEFAULT_BASE_URL: &'static str = "https://api.stlouisfed.org";

/// The query FRED gets: `api_key` and `file_type=json` first, then each
/// parameter in order, every value percent-encoded.
pub open spec fn query_spec(key: Seq<char>, params: Seq<(Seq<char>, Seq<char>)>) -> Seq<char>
    decreases params.len(),
{
    if params.len() == 0 {
        "api_key="@ + utf8_percent(key) + "&file_type=json"@
    } else {
        query_spec(key, params.drop_last()) + "&"@ + params.last().0 + "="@ + utf8_percent(params.last().1)
    }
}

/// The names and values of `params`.
pub open spec fn pair_views(params: Seq<(String, String)>) -> Seq<(Seq<char>, Seq<char>)> {
    Seq::new(params.len(), |i: int| (params[i].0@, params[i].1@))
}

/// The full URL of a FRED request.
pub open spec fn url_spec(base: Seq<char>, path: Seq<char>, key: Seq<char>, params: Seq<(Seq<char>, Seq<char>)>) -> Seq<char> {
    base + path + "?"@ + query_spec(key, params)
}

/// Builds the URL of a FRED request: `api_key` and `file_type=json` are
/// injected ahead of the endpoint's own parameters.
pub fn request_url(base: &str, path: &str, key: &str, params: &Vec<(String, String)>) -> (out: String)
    ensures
        out@ == url_spec(base@, path@, key@, pair_views(params@)),
{
    let mut out = String::new();
    push_str(&mut out, base);
    push_str(&mut out, path);
    push_str(&mut out, "?");
    push_str(&mut out, "api_key=");
    let k = encode(key);
    push_str(&mut out, k.as_str());
    push_str(&mut out, "&file_type=json");
    let ghost prefix = base@ + path@ + "?"@;
    assert(pair_views(params@).take(0).len() == 0);
    assert(out@ =~= prefix + query_spec(key@, pair_views(params@).take(0)));
    let mut i: usize = 0;
    while i < params.len()
        invariant
            i <= params.len(),
            prefix == base@ + path@ + "?"@,
            out@ == prefix + query_spec(key@, pair_views(params@).take(i as int)),
        decreases params.len() - i,
    {
        let name = &params[i].0;
        let value = &params[i].1;
        push_str(&mut out, "&");
        push_str(&mut out, name.as_str());
        push_str(&mut out, "=");
        let v = encode(value.as_str());
        push_str(&mut out, v.as_str());
        assert(pair_views(params@).take(i + 1).drop_last() =~= pair_views(params@).take(i as int));
        assert(pair_views(params@).take(i + 1).last() == (params@[i as int].0@, params@[i as int].1@));
        i = i + 1;
        assert(out@ =~= prefix + query_spec(key@, pair_views(params@).take(i as int)));
    }
    assert(pair_views(params@).take(i as int) =~= pair_views(params@));
    out
}

fn owned(s: &str) -> (out: String)
    ensures
        out@ == s@,
{
    s.to_owned()
}

/// The observations FRED is asked for: the requested number (10 when none
/// is given), clamped to FRED's documented range `1..=100000`.
pub open spec fn observations_limit_spec(limit: Option<u32>) -> u32 {
    let l = match limit { Some(l) => l, None => 10u32 };
    if l < 1 { 1 } else if l > 100000 { 100000 } else { l }
}

/// The observation count to ask for.
pub fn observations_limit(limit: Option<u32>) -> (out: u32)
    ensures
        out == observations_limit_spec(limit),
{
    let l = match limit {
        Some(l) => l,
        None => 10,
    };
    if l < 1 {
        1
    } else if l > 100000 {
        100000
    } else {
        l
    }
}

/// `search_series`: free-text search, capped at 10 results.
pub fn search_series_url(base: &str, key: &str, query: &str) -> (out: String)
    ensures
        out@ == url_spec(base@, "/fred/series/search"@, key@, seq![("search_text"@, query@), ("limit"@, "10"@)]),
{
    let params = vec![(owned("search_text"), owned(query)), (owned("limit"), owned("10"))];
    let out = request_url(base, "/fred/series/search", key, &params);
    assert(pair_views(params@) =~= seq![("search_text"@, query@), ("limit"@, "10"@)]);
    out
}

/// `get_series`: series metadata.
pub fn get_series_url(base: &str, key: &str, series_id: &str) -> (out: String)
    ensures
        out@ == url_spec(base@, "/fred/series"@, key@, seq![("series_id"@, series_id@)]),
{
    let params = vec![(owned("series_id"), owned(series_id))];
    let out = request_url(base, "/fred/series", key, &params);
    assert(pair_views(params@) =~= seq![("series_id"@, series_id@)]);
    out
}

/// `get_series_observations`: the data points, newest first, at most
/// `observations_limit(limit)` of them.
pub fn get_observations_url(base: &str, key: &str, series_id: &str, limit: Option<u32>) -> (out: String)
    ensures
        out@ == url_spec(base@, "/fred/series/observations"@, key@, seq![
            ("series_id"@, series_id@),
            ("sort_order"@, "desc"@),
            ("limit"@, decimal(observations_limit_spec(limit) as nat)),
        ]),
{
    let n = observations_limit(limit);
    let mut count = String::new();
    push_decimal(&mut count, n as u64);
    assert(count@ =~= decimal(n as nat));
    let params = vec![(owned("series_id"), owned(series_id)), (owned("sort_order"), owned("desc")), (owned("limit"), count)];
    let out = request_url(base, "/fred/series/observations", key, &params);
    assert(pair_views(params@) =~= seq![
        ("series_id"@, series_id@),
        ("sort_order"@, "desc"@),
        ("limit"@, decimal(observations_limit_spec(limit) as nat)),
    ]);
    out
}

} // verus!
