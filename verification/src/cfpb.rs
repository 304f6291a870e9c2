//! CFPB Consumer Complaint Database requests and result shaping.
//!
//! The database is a read-only, Elasticsearch-backed REST API. This module
//! builds the query strings the tools send (filters, paging, lenses), reads
//! the HTTP status the upstream answers with, and reshapes what comes back:
//! narrative previews, dates, paging and facet limits.
use vstd::prelude::*;
use crate::fred::utf8_percent;
use vstd::utf8::encode_utf8;
use crate::text::{
    char_count, chars_of, debug_quoted, debug_text, decimal, push_char, push_decimal, push_str, str_eq, take_chars,
    trim, trim_spec,
};

verus! {

/// Percent-encodes a string with `urlencoding::encode`.
///
/// Trusted: `urlencoding::encode` (2.1.3) percent-encodes every UTF-8 byte
/// of its input except ASCII letters, digits and `-`, `_`, `.`, `~`, as
/// `%XX` with uppercase hex digits, and leaves those unchanged; this is
/// what its source (`encode_into`, `to_hex_digit`) does.
#[verifier::external_body]
fn url_encode(s: &str) -> (out: String)
    ensures
        out@ == utf8_percent(s@),
{
    urlencoding::encode(s).into_owned()
}

/// A lookup error: a rejected request (the caller can fix it), a bad
/// argument, an empty result, or an infrastructure failure.
#[derive(Debug)]
pub enum CfpbError {
    /// The upstream rejected the query: 400 with a field-level explanation.
    BadRequest(String),
    /// An argument refused before or after the call.
    InvalidArgument(String),
    /// The query was valid but matched nothing.
    NotFound(String),
    /// Transport, timeout, or an unexpected upstream status.
    Failed(String),
}

/// The text an error is shown as.
pub open spec fn cfpb_error_text(e: CfpbError) -> Seq<char> {
    match e {
        CfpbError::BadRequest(m) => "CFPB rejected the query: "@ + m@,
        CfpbError::InvalidArgument(m) => "Invalid argument: "@ + m@,
        CfpbError::NotFound(m) => "No matching CFPB complaint record: "@ + m@,
        CfpbError::Failed(m) => "CFPB request failed: "@ + m@,
    }
}

impl CfpbError {
    /// The text this error is shown as in a tool-level error result.
    pub fn message(&self) -> (out: String)
        ensures
            out@ == cfpb_error_text(*self),
    {
        let mut out = String::new();
        match self {
            CfpbError::BadRequest(m) => {
                push_str(&mut out, "CFPB rejected the query: ");
                push_str(&mut out, m.as_str());
            },
            CfpbError::InvalidArgument(m) => {
                push_str(&mut out, "Invalid argument: ");
                push_str(&mut out, m.as_str());
            },
            CfpbError::NotFound(m) => {
                push_str(&mut out, "No matching CFPB complaint record: ");
                push_str(&mut out, m.as_str());
            },
            CfpbError::Failed(m) => {
                push_str(&mut out, "CFPB request failed: ");
                push_str(&mut out, m.as_str());
            },
        }
        assert(out@ =~= cfpb_error_text(*self));
        out
    }
}

/// Accumulates `key=value` pairs into a percent-encoded query string.
///
/// The CFPB API takes repeated keys for multi-valued filters
/// (`product=a&product=b`), so pairs are appended, never replaced.
pub struct Query {
    pairs: Vec<(String, String)>,
}

/// A pair's key and value as characters.
pub open spec fn pair_view(p: (String, String)) -> (Seq<char>, Seq<char>) {
    (p.0@, p.1@)
}

impl View for Query {
    type V = Seq<(Seq<char>, Seq<char>)>;

    closed spec fn view(&self) -> Seq<(Seq<char>, Seq<char>)> {
        self.pairs@.map_values(|p: (String, String)| pair_view(p))
    }
}

/// The pairs after pushing `value` (trimmed) under `key`: empty values are
/// dropped, because the upstream treats an empty filter as a validation
/// error rather than as unset.
pub open spec fn pushed(q: Seq<(Seq<char>, Seq<char>)>, key: Seq<char>, value: Seq<char>) -> Seq<(Seq<char>, Seq<char>)> {
    if trim_spec(value).len() == 0 { q } else { q.push((key, trim_spec(value))) }
}

/// The pairs after pushing each of `values` under `key`, in order.
pub open spec fn pushed_all(q: Seq<(Seq<char>, Seq<char>)>, key: Seq<char>, values: Seq<Seq<char>>) -> Seq<(Seq<char>, Seq<char>)>
    decreases values.len(),
{
    if values.len() == 0 {
        q
    } else {
        pushed(pushed_all(q, key, values.drop_last()), key, values.last())
    }
}

/// The views of a sequence of strings.
pub open spec fn string_views(v: Seq<String>) -> Seq<Seq<char>> {
    v.map_values(|s: String| s@)
}

fn chars_to_string(cs: &Vec<char>) -> (out: String)
    ensures
        out@ == cs@,
{
    crate::text::string_of(cs.as_slice())
}

fn owned(s: &str) -> (out: String)
    ensures
        out@ == s@,
{
    s.to_owned()
}

impl Query {
    /// An empty query.
    pub fn new() -> (out: Query)
        ensures
            out@ == Seq::<(Seq<char>, Seq<char>)>::empty(),
    {
        let q = Query { pairs: Vec::new() };
        assert(q@ =~= Seq::<(Seq<char>, Seq<char>)>::empty());
        q
    }

    /// Appends a pair, its value trimmed. Empty values are dropped.
    pub fn push(&mut self, key: &str, value: &str) -> (ret: &mut Self)
        ensures
            (*ret)@ == pushed(old(self)@, key@, value@),
            *final(self) == *final(ret),
    {
        let v = trim(value);
        if v.len() > 0 {
            let ghost before = self.pairs@;
            self.pairs.push((owned(key), chars_to_string(&v)));
            assert(self.pairs@.map_values(|p: (String, String)| pair_view(p)) =~= before.map_values(
                |p: (String, String)| pair_view(p),
            ).push((key@, trim_spec(value@))));
        }
        self
    }

    /// Appends a pair only when the option is present (and, after
    /// trimming, non-empty).
    pub fn push_opt(&mut self, key: &str, value: Option<&str>) -> (ret: &mut Self)
        ensures
            (*ret)@ == (match value {
                Some(v) => pushed(old(self)@, key@, v@),
                None => old(self)@,
            }),
            *final(self) == *final(ret),
    {
        match value {
            Some(v) => { self.push(key, v); },
            None => {},
        }
        self
    }

    /// Appends one pair per element of a multi-valued filter.
    pub fn push_all(&mut self, key: &str, values: &Vec<String>) -> (ret: &mut Self)
        ensures
            (*ret)@ == pushed_all(old(self)@, key@, string_views(values@)),
            *final(self) == *final(ret),
    {
        let mut i: usize = 0;
        while i < values.len()
            invariant
                i <= values.len(),
                self@ == pushed_all(old(self)@, key@, string_views(values@).take(i as int)),
            decreases values.len() - i,
        {
            self.push(key, values[i].as_str());
            assert(self@ == pushed(pushed_all(old(self)@, key@, string_views(values@).take(i as int)), key@, values@[i as int]@));
            assert(string_views(values@).take(i + 1).drop_last() =~= string_views(values@).take(i as int));
            i = i + 1;
        }
        assert(string_views(values@).take(i as int) =~= string_views(values@));
        self
    }

    /// Appends a number, rendered in decimal (never dropped).
    pub fn push_num(&mut self, key: &str, value: u64) -> (ret: &mut Self)
        ensures
            (*ret)@ == old(self)@.push((key@, crate::text::decimal(value as nat))),
            *final(self) == *final(ret),
    {
        let ghost before = self.pairs@;
        self.pairs.push((owned(key), crate::text::decimal_string(value)));
        assert(self.pairs@.map_values(|p: (String, String)| pair_view(p)) =~= before.map_values(
            |p: (String, String)| pair_view(p),
        ).push((key@, crate::text::decimal(value as nat))));
        self
    }
}


/// The query string for `pairs`: each `key=value` percent-encoded, joined
/// by `&`.
pub open spec fn encode_spec(pairs: Seq<(Seq<char>, Seq<char>)>) -> Seq<char>
    decreases pairs.len(),
{
    if pairs.len() == 0 {
        Seq::empty()
    } else {
        let item = utf8_percent(pairs.last().0) + "="@ + utf8_percent(pairs.last().1);
        if pairs.len() == 1 { item } else { encode_spec(pairs.drop_last()) + "&"@ + item }
    }
}

impl Query {
    /// The percent-encoded query string.
    pub fn encode(&self) -> (out: String)
        ensures
            out@ == encode_spec(self@),
    {
        let mut out = String::new();
        let mut i: usize = 0;
        while i < self.pairs.len()
            invariant
                i <= self.pairs.len(),
                out@ == encode_spec(self@.take(i as int)),
            decreases self.pairs.len() - i,
        {
            if i > 0 {
                push_str(&mut out, "&");
            }
            let k = url_encode(self.pairs[i].0.as_str());
            let v = url_encode(self.pairs[i].1.as_str());
            push_str(&mut out, k.as_str());
            push_str(&mut out, "=");
            push_str(&mut out, v.as_str());
            assert(self@.take(i + 1).drop_last() =~= self@.take(i as int));
            assert(self@.take(i + 1).last() == pair_view(self.pairs@[i as int]));
            i = i + 1;
            assert(out@ =~= encode_spec(self@.take(i as int)));
        }
        assert(self@.take(i as int) =~= self@);
        out
    }
}

/// Upper bound on `size` for a search page, matching the upstream cap.
pub const MAX_SIZE: u32 = 100;

/// Upper bound on the number of facet buckets returned by `complaint_stats`.
pub const MAX_TOP: usize = 100;

/// Narrative text is truncated to this many characters in list results.
pub const NARRATIVE_PREVIEW_CHARS: usize = 600;

/// The CFPB site used when none is configured.
pub const DEFAULT_BASE_URL: &'static str = "https://www.consumerfinance.gov";

/// The user agent sent when none is configured.
pub const DEFAULT_USER_AGENT: &'static str = "cfpb-complaints-mcp (Cosmonic Desktop MCP server)";

/// The search API's root under the site `base`.
pub open spec fn api_root_spec(base: Seq<char>) -> Seq<char> {
    base + "/data-research/consumer-complaints/search/api/v1"@
}

/// The search API's root under the site `base`.
pub fn api_root(base: &str) -> (out: String)
    ensures
        out@ == api_root_spec(base@),
{
    let mut out = String::new();
    push_str(&mut out, base);
    push_str(&mut out, "/data-research/consumer-complaints/search/api/v1");
    assert(out@ =~= api_root_spec(base@));
    out
}

/// The URL a GET of `path` with `query` goes to: no `?` when the query is
/// empty.
pub open spec fn request_url_spec(base: Seq<char>, path: Seq<char>, query: Seq<(Seq<char>, Seq<char>)>) -> Seq<char> {
    if encode_spec(query).len() == 0 {
        api_root_spec(base) + path
    } else {
        api_root_spec(base) + path + "?"@ + encode_spec(query)
    }
}

/// The URL a GET of `path` with `query` goes to.
pub fn request_url(base: &str, path: &str, query: &Query) -> (out: String)
    ensures
        out@ == request_url_spec(base@, path@, query@),
{
    let encoded = query.encode();
    let mut out = api_root(base);
    push_str(&mut out, path);
    if char_count(encoded.as_str()) > 0 {
        push_str(&mut out, "?");
        push_str(&mut out, encoded.as_str());
    }
    assert(out@ =~= request_url_spec(base@, path@, query@));
    out
}

/// What a non-200 status becomes: 400 passes the upstream's explanation
/// through, 404 is a miss, 429 asks to retry, anything else is a failure.
/// `None` for 200.
pub fn status_error(status: u16, url: &str, body: &str) -> (out: Option<CfpbError>)
    ensures
        status == 200 ==> out is None,
        status == 400 ==> (out matches Some(CfpbError::BadRequest(m)) && m@ == body@),
        status == 404 ==> (out matches Some(CfpbError::NotFound(m)) && m@ == url@),
        status == 429 ==> (out matches Some(CfpbError::Failed(m)) && m@ == "GET "@ + url@
            + ": 429 Too Many Requests (the CFPB API is rate limiting; retry shortly)"@),
        status != 200 && status != 400 && status != 404 && status != 429 ==> (out matches Some(
            CfpbError::Failed(m),
        ) && m@ == "GET "@ + url@ + ": unexpected status "@ + decimal(status as nat)),
{
    if status == 200 {
        None
    } else if status == 400 {
        Some(CfpbError::BadRequest(owned(body)))
    } else if status == 404 {
        Some(CfpbError::NotFound(owned(url)))
    } else if status == 429 {
        let mut m = String::new();
        push_str(&mut m, "GET ");
        push_str(&mut m, url);
        push_str(&mut m, ": 429 Too Many Requests (the CFPB API is rate limiting; retry shortly)");
        assert(m@ =~= "GET "@ + url@ + ": 429 Too Many Requests (the CFPB API is rate limiting; retry shortly)"@);
        Some(CfpbError::Failed(m))
    } else {
        let mut m = String::new();
        push_str(&mut m, "GET ");
        push_str(&mut m, url);
        push_str(&mut m, ": unexpected status ");
        push_decimal(&mut m, status as u64);
        assert(m@ =~= "GET "@ + url@ + ": unexpected status "@ + decimal(status as nat));
        Some(CfpbError::Failed(m))
    }
}

/// The first 500 characters of a text (all of it when shorter).
pub open spec fn preview_spec(text: Seq<char>) -> Seq<char> {
    if text.len() <= 500 { text } else { text.take(500) }
}

/// An error body that is not JSON, shown as its first 500 characters.
pub fn body_preview(text: &str) -> (out: String)
    ensures
        out@ == preview_spec(text@),
{
    take_chars(text, 500)
}

/// The compact JSON text `serde_json` writes back for a body that parses
/// as JSON; `None` when it does not parse.
pub uninterp spec fn json_compact(body: Seq<u8>) -> Option<Seq<char>>;

/// A body parsed as JSON and written back compactly.
///
/// Trusted: calls `serde_json::from_slice::<serde_json::Value>` and writes
/// the value with its `Display` (`to_string`); the text is named by
/// [`json_compact`], a function of the bytes alone, and nothing more is
/// claimed of it.
#[verifier::external_body]
fn compact_json(body: &[u8]) -> (out: Option<String>)
    ensures
        match out {
            Some(t) => json_compact(body@) == Some(t@),
            None => json_compact(body@) is None,
        },
{
    match serde_json::from_slice::<serde_json::Value>(body) {
        Ok(v) => Some(v.to_string()),
        Err(_) => None,
    }
}

/// The text `String::from_utf8_lossy` makes of some bytes: their UTF-8
/// decoding, with each invalid sequence replaced by U+FFFD.
pub uninterp spec fn lossy_text(bytes: Seq<u8>) -> Seq<char>;

/// Some bytes read as UTF-8, invalid sequences replaced.
///
/// Trusted: calls `String::from_utf8_lossy`, which the standard library
/// documents as returning the bytes' text unchanged when they are valid
/// UTF-8; the text of other bytes is named by [`lossy_text`].
#[verifier::external_body]
fn utf8_lossy(bytes: &[u8]) -> (out: String)
    ensures
        out@ == lossy_text(bytes@),
        vstd::utf8::valid_utf8(bytes@) ==> out@ == vstd::utf8::decode_utf8(bytes@),
{
    String::from_utf8_lossy(bytes).into_owned()
}

/// How an error body is shown, given its compact JSON text (if it parsed)
/// and its text: the JSON when there is some, else the first 500
/// characters of the text.
pub fn body_description(compact: Option<String>, text: &str) -> (out: String)
    ensures
        match compact {
            Some(t) => out@ == t@,
            None => out@ == preview_spec(text@),
        },
{
    match compact {
        Some(t) => t,
        None => body_preview(text),
    }
}

/// How an error body is shown: compact JSON when it parses, else its text
/// (invalid UTF-8 replaced) cut to 500 characters.
pub fn describe_body(body: &[u8]) -> (out: String)
    ensures
        out@ == match json_compact(body@) {
            Some(t) => t,
            None => preview_spec(lossy_text(body@)),
        },
{
    let compact = compact_json(body);
    let text = utf8_lossy(body);
    body_description(compact, text.as_str())
}


// ---------------------------------------------------------------------------
// Filters
// ---------------------------------------------------------------------------

/// The filters shared by search, stats and trends, so the three tools
/// accept exactly the same slice of the database.
#[derive(Debug)]
pub struct Filters {
    pub search_term: Option<String>,
    pub field: Option<String>,
    pub company: Vec<String>,
    pub state: Vec<String>,
    pub product: Vec<String>,
    pub issue: Vec<String>,
    pub zip_code: Vec<String>,
    pub tags: Vec<String>,
    pub company_response: Vec<String>,
    pub company_public_response: Vec<String>,
    pub consumer_consent_provided: Vec<String>,
    pub submitted_via: Vec<String>,
    pub timely: Option<String>,
    pub has_narrative: Option<bool>,
    pub date_received_min: Option<String>,
    pub date_received_max: Option<String>,
    pub company_received_min: Option<String>,
    pub company_received_max: Option<String>,
}

/// `q` after pushing an optional value under `key`.
pub open spec fn pushed_opt(q: Seq<(Seq<char>, Seq<char>)>, key: Seq<char>, value: Option<String>) -> Seq<(Seq<char>, Seq<char>)> {
    match value {
        Some(v) => pushed(q, key, v@),
        None => q,
    }
}

/// `q` after writing every set filter, in the order the upstream gets them.
pub open spec fn applied(f: Filters, q: Seq<(Seq<char>, Seq<char>)>) -> Seq<(Seq<char>, Seq<char>)> {
    let q = pushed_opt(q, "search_term"@, f.search_term);
    let q = pushed_opt(q, "field"@, f.field);
    let q = pushed_all(q, "company"@, string_views(f.company@));
    let q = pushed_all(q, "state"@, string_views(f.state@));
    let q = pushed_all(q, "product"@, string_views(f.product@));
    let q = pushed_all(q, "issue"@, string_views(f.issue@));
    let q = pushed_all(q, "zip_code"@, string_views(f.zip_code@));
    let q = pushed_all(q, "tags"@, string_views(f.tags@));
    let q = pushed_all(q, "company_response"@, string_views(f.company_response@));
    let q = pushed_all(q, "company_public_response"@, string_views(f.company_public_response@));
    let q = pushed_all(q, "consumer_consent_provided"@, string_views(f.consumer_consent_provided@));
    let q = pushed_all(q, "submitted_via"@, string_views(f.submitted_via@));
    let q = pushed_opt(q, "timely"@, f.timely);
    let q = pushed_opt(q, "date_received_min"@, f.date_received_min);
    let q = pushed_opt(q, "date_received_max"@, f.date_received_max);
    let q = pushed_opt(q, "company_received_min"@, f.company_received_min);
    let q = pushed_opt(q, "company_received_max"@, f.company_received_max);
    match f.has_narrative {
        Some(b) => pushed(q, "has_narrative"@, if b { "true"@ } else { "false"@ }),
        None => q,
    }
}

/// The values a filter sends, in order: each trimmed, the empty ones
/// dropped.
pub open spec fn kept_values(vals: Seq<Seq<char>>) -> Seq<Seq<char>>
    decreases vals.len(),
{
    if vals.len() == 0 {
        Seq::empty()
    } else {
        let r = kept_values(vals.drop_last());
        if trim_spec(vals.last()).len() == 0 { r } else { r.push(trim_spec(vals.last())) }
    }
}

/// The values of an optional filter: the one set, or none.
pub open spec fn opt_values(o: Option<String>) -> Seq<Seq<char>> {
    match o {
        Some(v) => seq![v@],
        None => Seq::empty(),
    }
}

/// The value `has_narrative` is sent as, if it is set.
pub open spec fn narrative_values(o: Option<bool>) -> Seq<Seq<char>> {
    match o {
        Some(b) => seq![if b { "true"@ } else { "false"@ }],
        None => Seq::empty(),
    }
}

/// Whether `after` is `before` with every set filter of `f` sent under its
/// own upstream parameter: under each filter's key, the values already
/// there followed by that filter's own values, and nothing sent besides.
pub open spec fn sends_filters(f: Filters, before: Seq<(Seq<char>, Seq<char>)>, after: Seq<(Seq<char>, Seq<char>)>) -> bool {
    &&& values_for(after, "search_term"@) == values_for(before, "search_term"@) + kept_values(opt_values(f.search_term))
    &&& values_for(after, "field"@) == values_for(before, "field"@) + kept_values(opt_values(f.field))
    &&& values_for(after, "company"@) == values_for(before, "company"@) + kept_values(string_views(f.company@))
    &&& values_for(after, "state"@) == values_for(before, "state"@) + kept_values(string_views(f.state@))
    &&& values_for(after, "product"@) == values_for(before, "product"@) + kept_values(string_views(f.product@))
    &&& values_for(after, "issue"@) == values_for(before, "issue"@) + kept_values(string_views(f.issue@))
    &&& values_for(after, "zip_code"@) == values_for(before, "zip_code"@) + kept_values(string_views(f.zip_code@))
    &&& values_for(after, "tags"@) == values_for(before, "tags"@) + kept_values(string_views(f.tags@))
    &&& values_for(after, "company_response"@) == values_for(before, "company_response"@) + kept_values(string_views(f.company_response@))
    &&& values_for(after, "company_public_response"@) == values_for(before, "company_public_response"@) + kept_values(string_views(f.company_public_response@))
    &&& values_for(after, "consumer_consent_provided"@) == values_for(before, "consumer_consent_provided"@) + kept_values(string_views(f.consumer_consent_provided@))
    &&& values_for(after, "submitted_via"@) == values_for(before, "submitted_via"@) + kept_values(string_views(f.submitted_via@))
    &&& values_for(after, "timely"@) == values_for(before, "timely"@) + kept_values(opt_values(f.timely))
    &&& values_for(after, "date_received_min"@) == values_for(before, "date_received_min"@) + kept_values(opt_values(f.date_received_min))
    &&& values_for(after, "date_received_max"@) == values_for(before, "date_received_max"@) + kept_values(opt_values(f.date_received_max))
    &&& values_for(after, "company_received_min"@) == values_for(before, "company_received_min"@) + kept_values(opt_values(f.company_received_min))
    &&& values_for(after, "company_received_max"@) == values_for(before, "company_received_max"@) + kept_values(opt_values(f.company_received_max))
    &&& values_for(after, "has_narrative"@) == values_for(before, "has_narrative"@) + kept_values(narrative_values(f.has_narrative))
    &&& after.len() == before.len() + kept_values(opt_values(f.search_term)).len() + kept_values(opt_values(f.field)).len() + kept_values(string_views(f.company@)).len() + kept_values(string_views(f.state@)).len() + kept_values(string_views(f.product@)).len() + kept_values(string_views(f.issue@)).len() + kept_values(string_views(f.zip_code@)).len() + kept_values(string_views(f.tags@)).len() + kept_values(string_views(f.company_response@)).len() + kept_values(string_views(f.company_public_response@)).len() + kept_values(string_views(f.consumer_consent_provided@)).len() + kept_values(string_views(f.submitted_via@)).len() + kept_values(opt_values(f.timely)).len() + kept_values(opt_values(f.date_received_min)).len() + kept_values(opt_values(f.date_received_max)).len() + kept_values(opt_values(f.company_received_min)).len() + kept_values(opt_values(f.company_received_max)).len() + kept_values(narrative_values(f.has_narrative)).len()
}

/// `acc` followed by the kept `vals` when `key` is `field_key`; else `acc`.
spec fn sent_if(acc: Seq<Seq<char>>, key: Seq<char>, field_key: Seq<char>, vals: Seq<Seq<char>>) -> Seq<Seq<char>> {
    if key == field_key { acc + kept_values(vals) } else { acc }
}

proof fn lemma_pushed_all_values(q: Seq<(Seq<char>, Seq<char>)>, k: Seq<char>, vals: Seq<Seq<char>>, key: Seq<char>)
    ensures
        values_for(pushed_all(q, k, vals), key) == sent_if(values_for(q, key), key, k, vals),
        pushed_all(q, k, vals).len() == q.len() + kept_values(vals).len(),
    decreases vals.len(),
{
    if vals.len() == 0 {
        assert(values_for(q, key) + kept_values(vals) =~= values_for(q, key));
    } else {
        let dl = vals.drop_last();
        lemma_pushed_all_values(q, k, dl, key);
        let p = pushed_all(q, k, dl);
        let t = trim_spec(vals.last());
        if t.len() != 0 {
            let pp = p.push((k, t));
            assert(pp.drop_last() =~= p);
            assert(values_for(pp, key) == (if k == key { values_for(p, key).push(t) } else { values_for(p, key) }));
            if key == k {
                assert(values_for(q, key) + kept_values(dl).push(t) =~= (values_for(q, key) + kept_values(dl)).push(t));
            }
        }
    }
}

proof fn lemma_pushed_one(q: Seq<(Seq<char>, Seq<char>)>, k: Seq<char>, v: Seq<char>)
    ensures
        pushed(q, k, v) == pushed_all(q, k, seq![v]),
{
    assert(seq![v].drop_last() =~= Seq::<Seq<char>>::empty());
    assert(seq![v].last() == v);
    assert(pushed_all(q, k, Seq::<Seq<char>>::empty()) == q);
}

proof fn lemma_pushed_opt_values(q: Seq<(Seq<char>, Seq<char>)>, k: Seq<char>, o: Option<String>, key: Seq<char>)
    ensures
        values_for(pushed_opt(q, k, o), key) == sent_if(values_for(q, key), key, k, opt_values(o)),
        pushed_opt(q, k, o).len() == q.len() + kept_values(opt_values(o)).len(),
{
    match o {
        Some(v) => { lemma_pushed_one(q, k, v@); },
        None => {},
    }
    lemma_pushed_all_values(q, k, opt_values(o), key);
}

proof fn lemma_narrative_values(q: Seq<(Seq<char>, Seq<char>)>, o: Option<bool>, key: Seq<char>)
    ensures
        ({
            let after = match o {
                Some(b) => pushed(q, "has_narrative"@, if b { "true"@ } else { "false"@ }),
                None => q,
            };
            &&& values_for(after, key) == sent_if(values_for(q, key), key, "has_narrative"@, narrative_values(o))
            &&& after.len() == q.len() + kept_values(narrative_values(o)).len()
        }),
{
    match o {
        Some(b) => { lemma_pushed_one(q, "has_narrative"@, if b { "true"@ } else { "false"@ }); },
        None => {},
    }
    lemma_pushed_all_values(q, "has_narrative"@, narrative_values(o), key);
}

proof fn lemma_applied_values(f: Filters, q: Seq<(Seq<char>, Seq<char>)>, key: Seq<char>)
    ensures
        values_for(applied(f, q), key) == sent_if(sent_if(sent_if(sent_if(sent_if(sent_if(sent_if(sent_if(sent_if(sent_if(sent_if(sent_if(sent_if(sent_if(sent_if(sent_if(sent_if(sent_if(values_for(q, key), key, "search_term"@, opt_values(f.search_term)), key, "field"@, opt_values(f.field)), key, "company"@, string_views(f.company@)), key, "state"@, string_views(f.state@)), key, "product"@, string_views(f.product@)), key, "issue"@, string_views(f.issue@)), key, "zip_code"@, string_views(f.zip_code@)), key, "tags"@, string_views(f.tags@)), key, "company_response"@, string_views(f.company_response@)), key, "company_public_response"@, string_views(f.company_public_response@)), key, "consumer_consent_provided"@, string_views(f.consumer_consent_provided@)), key, "submitted_via"@, string_views(f.submitted_via@)), key, "timely"@, opt_values(f.timely)), key, "date_received_min"@, opt_values(f.date_received_min)), key, "date_received_max"@, opt_values(f.date_received_max)), key, "company_received_min"@, opt_values(f.company_received_min)), key, "company_received_max"@, opt_values(f.company_received_max)), key, "has_narrative"@, narrative_values(f.has_narrative)),
        applied(f, q).len() == q.len() + kept_values(opt_values(f.search_term)).len() + kept_values(opt_values(f.field)).len() + kept_values(string_views(f.company@)).len() + kept_values(string_views(f.state@)).len() + kept_values(string_views(f.product@)).len() + kept_values(string_views(f.issue@)).len() + kept_values(string_views(f.zip_code@)).len() + kept_values(string_views(f.tags@)).len() + kept_values(string_views(f.company_response@)).len() + kept_values(string_views(f.company_public_response@)).len() + kept_values(string_views(f.consumer_consent_provided@)).len() + kept_values(string_views(f.submitted_via@)).len() + kept_values(opt_values(f.timely)).len() + kept_values(opt_values(f.date_received_min)).len() + kept_values(opt_values(f.date_received_max)).len() + kept_values(opt_values(f.company_received_min)).len() + kept_values(opt_values(f.company_received_max)).len() + kept_values(narrative_values(f.has_narrative)).len(),
{
    let q1 = pushed_opt(q, "search_term"@, f.search_term);
    lemma_pushed_opt_values(q, "search_term"@, f.search_term, key);
    let q2 = pushed_opt(q1, "field"@, f.field);
    lemma_pushed_opt_values(q1, "field"@, f.field, key);
    let q3 = pushed_all(q2, "company"@, string_views(f.company@));
    lemma_pushed_all_values(q2, "company"@, string_views(f.company@), key);
    let q4 = pushed_all(q3, "state"@, string_views(f.state@));
    lemma_pushed_all_values(q3, "state"@, string_views(f.state@), key);
    let q5 = pushed_all(q4, "product"@, string_views(f.product@));
    lemma_pushed_all_values(q4, "product"@, string_views(f.product@), key);
    let q6 = pushed_all(q5, "issue"@, string_views(f.issue@));
    lemma_pushed_all_values(q5, "issue"@, string_views(f.issue@), key);
    let q7 = pushed_all(q6, "zip_code"@, string_views(f.zip_code@));
    lemma_pushed_all_values(q6, "zip_code"@, string_views(f.zip_code@), key);
    let q8 = pushed_all(q7, "tags"@, string_views(f.tags@));
    lemma_pushed_all_values(q7, "tags"@, string_views(f.tags@), key);
    let q9 = pushed_all(q8, "company_response"@, string_views(f.company_response@));
    lemma_pushed_all_values(q8, "company_response"@, string_views(f.company_response@), key);
    let q10 = pushed_all(q9, "company_public_response"@, string_views(f.company_public_response@));
    lemma_pushed_all_values(q9, "company_public_response"@, string_views(f.company_public_response@), key);
    let q11 = pushed_all(q10, "consumer_consent_provided"@, string_views(f.consumer_consent_provided@));
    lemma_pushed_all_values(q10, "consumer_consent_provided"@, string_views(f.consumer_consent_provided@), key);
    let q12 = pushed_all(q11, "submitted_via"@, string_views(f.submitted_via@));
    lemma_pushed_all_values(q11, "submitted_via"@, string_views(f.submitted_via@), key);
    let q13 = pushed_opt(q12, "timely"@, f.timely);
    lemma_pushed_opt_values(q12, "timely"@, f.timely, key);
    let q14 = pushed_opt(q13, "date_received_min"@, f.date_received_min);
    lemma_pushed_opt_values(q13, "date_received_min"@, f.date_received_min, key);
    let q15 = pushed_opt(q14, "date_received_max"@, f.date_received_max);
    lemma_pushed_opt_values(q14, "date_received_max"@, f.date_received_max, key);
    let q16 = pushed_opt(q15, "company_received_min"@, f.company_received_min);
    lemma_pushed_opt_values(q15, "company_received_min"@, f.company_received_min, key);
    let q17 = pushed_opt(q16, "company_received_max"@, f.company_received_max);
    lemma_pushed_opt_values(q16, "company_received_max"@, f.company_received_max, key);
    let q18 = match f.has_narrative {
        Some(b) => pushed(q17, "has_narrative"@, if b { "true"@ } else { "false"@ }),
        None => q17,
    };
    lemma_narrative_values(q17, f.has_narrative, key);
    assert(applied(f, q) == q18);
}

/// Each filter is sent under its own upstream parameter and under no
/// other: applying `f` to a query adds, under every filter's key, exactly
/// that filter's values (trimmed, empty ones dropped), and nothing else.
pub proof fn law_filters_sent_under_own_keys(f: Filters, q: Seq<(Seq<char>, Seq<char>)>)
    ensures
        sends_filters(f, q, applied(f, q)),
{
    reveal_strlit("search_term");
    reveal_strlit("field");
    reveal_strlit("company");
    reveal_strlit("state");
    reveal_strlit("product");
    reveal_strlit("issue");
    reveal_strlit("zip_code");
    reveal_strlit("tags");
    reveal_strlit("company_response");
    reveal_strlit("company_public_response");
    reveal_strlit("consumer_consent_provided");
    reveal_strlit("submitted_via");
    reveal_strlit("timely");
    reveal_strlit("date_received_min");
    reveal_strlit("date_received_max");
    reveal_strlit("company_received_min");
    reveal_strlit("company_received_max");
    reveal_strlit("has_narrative");
    // The keys differ pairwise: by length, first character or second-to-last one.
    assert("search_term"@.len() == 11 && "search_term"@[0] == 's' && "search_term"@[9] == 'r');
    assert("field"@.len() == 5 && "field"@[0] == 'f' && "field"@[3] == 'l');
    assert("company"@.len() == 7 && "company"@[0] == 'c' && "company"@[5] == 'n');
    assert("state"@.len() == 5 && "state"@[0] == 's' && "state"@[3] == 't');
    assert("product"@.len() == 7 && "product"@[0] == 'p' && "product"@[5] == 'c');
    assert("issue"@.len() == 5 && "issue"@[0] == 'i' && "issue"@[3] == 'u');
    assert("zip_code"@.len() == 8 && "zip_code"@[0] == 'z' && "zip_code"@[6] == 'd');
    assert("tags"@.len() == 4 && "tags"@[0] == 't' && "tags"@[2] == 'g');
    assert("company_response"@.len() == 16 && "company_response"@[0] == 'c' && "company_response"@[14] == 's');
    assert("company_public_response"@.len() == 23 && "company_public_response"@[0] == 'c' && "company_public_response"@[21] == 's');
    assert("consumer_consent_provided"@.len() == 25 && "consumer_consent_provided"@[0] == 'c' && "consumer_consent_provided"@[23] == 'e');
    assert("submitted_via"@.len() == 13 && "submitted_via"@[0] == 's' && "submitted_via"@[11] == 'i');
    assert("timely"@.len() == 6 && "timely"@[0] == 't' && "timely"@[4] == 'l');
    assert("date_received_min"@.len() == 17 && "date_received_min"@[0] == 'd' && "date_received_min"@[15] == 'i');
    assert("date_received_max"@.len() == 17 && "date_received_max"@[0] == 'd' && "date_received_max"@[15] == 'a');
    assert("company_received_min"@.len() == 20 && "company_received_min"@[0] == 'c' && "company_received_min"@[18] == 'i');
    assert("company_received_max"@.len() == 20 && "company_received_max"@[0] == 'c' && "company_received_max"@[18] == 'a');
    assert("has_narrative"@.len() == 13 && "has_narrative"@[0] == 'h' && "has_narrative"@[11] == 'v');
    lemma_applied_values(f, q, "search_term"@);
    lemma_applied_values(f, q, "field"@);
    lemma_applied_values(f, q, "company"@);
    lemma_applied_values(f, q, "state"@);
    lemma_applied_values(f, q, "product"@);
    lemma_applied_values(f, q, "issue"@);
    lemma_applied_values(f, q, "zip_code"@);
    lemma_applied_values(f, q, "tags"@);
    lemma_applied_values(f, q, "company_response"@);
    lemma_applied_values(f, q, "company_public_response"@);
    lemma_applied_values(f, q, "consumer_consent_provided"@);
    lemma_applied_values(f, q, "submitted_via"@);
    lemma_applied_values(f, q, "timely"@);
    lemma_applied_values(f, q, "date_received_min"@);
    lemma_applied_values(f, q, "date_received_max"@);
    lemma_applied_values(f, q, "company_received_min"@);
    lemma_applied_values(f, q, "company_received_max"@);
    lemma_applied_values(f, q, "has_narrative"@);
}

fn opt_str(o: &Option<String>) -> (out: Option<&str>)
    ensures
        match o {
            Some(s) => out matches Some(t) && t@ == s@,
            None => out is None,
        },
{
    match o {
        Some(s) => Some(s.as_str()),
        None => None,
    }
}

impl Filters {
    /// Writes every set filter into `query`.
    pub fn apply(&self, query: &mut Query)
        ensures
            final(query)@ == applied(*self, old(query)@),
            sends_filters(*self, old(query)@, final(query)@),
    {
        proof {
            law_filters_sent_under_own_keys(*self, old(query)@);
        }
        query
            .push_opt("search_term", opt_str(&self.search_term))
            .push_opt("field", opt_str(&self.field))
            .push_all("company", &self.company)
            .push_all("state", &self.state)
            .push_all("product", &self.product)
            .push_all("issue", &self.issue)
            .push_all("zip_code", &self.zip_code)
            .push_all("tags", &self.tags)
            .push_all("company_response", &self.company_response)
            .push_all("company_public_response", &self.company_public_response)
            .push_all("consumer_consent_provided", &self.consumer_consent_provided)
            .push_all("submitted_via", &self.submitted_via)
            .push_opt("timely", opt_str(&self.timely))
            .push_opt("date_received_min", opt_str(&self.date_received_min))
            .push_opt("date_received_max", opt_str(&self.date_received_max))
            .push_opt("company_received_min", opt_str(&self.company_received_min))
            .push_opt("company_received_max", opt_str(&self.company_received_max));
        match self.has_narrative {
            Some(b) => {
                query.push("has_narrative", if b { "true" } else { "false" });
            },
            None => {},
        }
    }
}


/// The distinct keys of `pairs`, in order of first appearance.
pub open spec fn distinct_keys(pairs: Seq<(Seq<char>, Seq<char>)>) -> Seq<Seq<char>>
    decreases pairs.len(),
{
    if pairs.len() == 0 {
        Seq::empty()
    } else {
        let d = distinct_keys(pairs.drop_last());
        if d.contains(pairs.last().0) { d } else { d.push(pairs.last().0) }
    }
}

/// The values of `pairs` under `key`, in order.
pub open spec fn values_for(pairs: Seq<(Seq<char>, Seq<char>)>, key: Seq<char>) -> Seq<Seq<char>>
    decreases pairs.len(),
{
    if pairs.len() == 0 {
        Seq::empty()
    } else {
        let v = values_for(pairs.drop_last(), key);
        if pairs.last().0 == key { v.push(pairs.last().1) } else { v }
    }
}

/// Each key of `pairs` with all of its values.
pub open spec fn grouped(pairs: Seq<(Seq<char>, Seq<char>)>) -> Seq<(Seq<char>, Seq<Seq<char>>)> {
    let d = distinct_keys(pairs);
    Seq::new(d.len(), |i: int| (d[i], values_for(pairs, d[i])))
}

/// An echo entry: a filter name and the values sent for it (one value is
/// shown as a string, several as an array).
#[derive(Debug)]
pub struct EchoEntry {
    pub key: String,
    pub values: Vec<String>,
}

fn contains_key(keys: &Vec<String>, k: &String) -> (out: bool)
    ensures
        out == string_views(keys@).contains(k@),
{
    let mut i: usize = 0;
    while i < keys.len()
        invariant
            i <= keys.len(),
            forall|j: int| 0 <= j < i ==> keys@[j]@ != k@,
        decreases keys.len() - i,
    {
        if str_eq(keys[i].as_str(), k.as_str()) {
            assert(string_views(keys@)[i as int] == k@);
            return true;
        }
        i = i + 1;
    }
    assert forall|j: int| 0 <= j < string_views(keys@).len() implies string_views(keys@)[j] != k@ by {
        assert(string_views(keys@)[j] == keys@[j]@);
    }
    false
}

fn copy_string(s: &String) -> (out: String)
    ensures
        out@ == s@,
{
    s.clone()
}

impl Query {
    /// The distinct keys, in order of first appearance.
    fn keys(&self) -> (out: Vec<String>)
        ensures
            string_views(out@) == distinct_keys(self@),
    {
        let mut out: Vec<String> = Vec::new();
        let mut i: usize = 0;
        while i < self.pairs.len()
            invariant
                i <= self.pairs.len(),
                string_views(out@) == distinct_keys(self@.take(i as int)),
            decreases self.pairs.len() - i,
        {
            let k = &self.pairs[i].0;
            assert(self@.take(i + 1).drop_last() =~= self@.take(i as int));
            assert(self@.take(i + 1).last().0 == k@);
            if !contains_key(&out, k) {
                let ghost before = out@;
                out.push(copy_string(k));
                assert(string_views(out@) =~= string_views(before).push(k@));
            }
            i = i + 1;
        }
        assert(self@.take(i as int) =~= self@);
        out
    }

    /// The values under `key`, in order.
    fn values(&self, key: &String) -> (out: Vec<String>)
        ensures
            string_views(out@) == values_for(self@, key@),
    {
        let mut out: Vec<String> = Vec::new();
        let mut i: usize = 0;
        while i < self.pairs.len()
            invariant
                i <= self.pairs.len(),
                string_views(out@) == values_for(self@.take(i as int), key@),
            decreases self.pairs.len() - i,
        {
            assert(self@.take(i + 1).drop_last() =~= self@.take(i as int));
            assert(self@.take(i + 1).last() == pair_view(self.pairs@[i as int]));
            if str_eq(self.pairs[i].0.as_str(), key.as_str()) {
                let ghost before = out@;
                out.push(copy_string(&self.pairs[i].1));
                assert(string_views(out@) =~= string_views(before).push(self.pairs@[i as int].1@));
            }
            i = i + 1;
        }
        assert(self@.take(i as int) =~= self@);
        out
    }

    /// Each key with all the values sent for it, keys in order of first
    /// appearance.
    pub fn grouped(&self) -> (out: Vec<EchoEntry>)
        ensures
            out@.len() == grouped(self@).len(),
            forall|i: int| 0 <= i < out@.len() ==> (#[trigger] out@[i]).key@ == grouped(self@)[i].0
                && string_views(out@[i].values@) == grouped(self@)[i].1,
    {
        let keys = self.keys();
        let mut out: Vec<EchoEntry> = Vec::new();
        let mut i: usize = 0;
        while i < keys.len()
            invariant
                i <= keys.len(),
                string_views(keys@) == distinct_keys(self@),
                out@.len() == i,
                forall|j: int| 0 <= j < i ==> (#[trigger] out@[j]).key@ == grouped(self@)[j].0
                    && string_views(out@[j].values@) == grouped(self@)[j].1,
            decreases keys.len() - i,
        {
            assert(string_views(keys@)[i as int] == keys@[i as int]@);
            let vals = self.values(&keys[i]);
            out.push(EchoEntry { key: copy_string(&keys[i]), values: vals });
            i = i + 1;
        }
        out
    }
}

impl Filters {
    /// A compact echo of the filters actually sent, so the caller can see
    /// what slice of the database a number describes.
    pub fn echo(&self) -> (out: Vec<EchoEntry>)
        ensures
            out@.len() == grouped(applied(*self, Seq::empty())).len(),
            forall|i: int| 0 <= i < out@.len() ==> (#[trigger] out@[i]).key@
                == grouped(applied(*self, Seq::empty()))[i].0
                && string_views(out@[i].values@) == grouped(applied(*self, Seq::empty()))[i].1,
    {
        let mut query = Query::new();
        self.apply(&mut query);
        query.grouped()
    }
}


// ---------------------------------------------------------------------------
// Tools
// ---------------------------------------------------------------------------

/// `search_complaints`: the query for one page of complaints. The page size
/// is capped at [`MAX_SIZE`]; facets are skipped (`no_aggs`), since they
/// are a separate tool.
pub fn search_query(filters: &Filters, size: u32, offset: u32, sort: Option<&str>) -> (out: Query)
    ensures
        out@ == ({
            let q = applied(*filters, Seq::empty());
            let q = q.push(("size"@, decimal((if size < MAX_SIZE { size } else { MAX_SIZE }) as nat)));
            let q = q.push(("frm"@, decimal(offset as nat)));
            let q = match sort { Some(t) => pushed(q, "sort"@, t@), None => q };
            pushed(q, "no_aggs"@, "true"@)
        }),
{
    let size = if size < MAX_SIZE { size } else { MAX_SIZE };
    let mut query = Query::new();
    filters.apply(&mut query);
    query.push_num("size", size as u64).push_num("frm", offset as u64).push_opt("sort", sort).push("no_aggs", "true");
    query
}

/// The page size actually asked for.
pub fn page_size(size: u32) -> (out: u32)
    ensures
        out == (if size < MAX_SIZE { size } else { MAX_SIZE }),
{
    if size < MAX_SIZE { size } else { MAX_SIZE }
}

/// The offset of the next page, if more complaints match than have been
/// returned so far.
pub open spec fn next_offset_spec(offset: u32, returned: u64, total: u64) -> Option<u64> {
    if offset + returned < total { Some((offset + returned) as u64) } else { None }
}

/// The offset of the next page.
pub fn next_offset(offset: u32, returned: u64, total: u64) -> (out: Option<u64>)
    requires
        returned <= 9223372036854775807,
    ensures
        out == next_offset_spec(offset, returned, total),
{
    let end = offset as u64 + returned;
    if end < total { Some(end) } else { None }
}

/// A complaint's narrative as a result shows it.
#[derive(Debug)]
pub struct NarrativeField {
    /// The narrative, or `None` (shown as null) when there is none.
    pub text: Option<String>,
    /// The narrative was cut to [`NARRATIVE_PREVIEW_CHARS`] characters.
    pub truncated: bool,
}

/// How a narrative is shown: absent when empty; whole when asked for or
/// short enough; else its first [`NARRATIVE_PREVIEW_CHARS`] characters,
/// marked truncated.
pub fn narrative_field(narrative: Option<&str>, full_narrative: bool) -> (out: NarrativeField)
    ensures
        ({
            let t = match narrative { Some(n) => n@, None => Seq::<char>::empty() };
            if t.len() == 0 {
                out.text is None && !out.truncated
            } else if full_narrative || t.len() <= NARRATIVE_PREVIEW_CHARS {
                out.text matches Some(x) && x@ == t && !out.truncated
            } else {
                out.text matches Some(x) && x@ == t.take(NARRATIVE_PREVIEW_CHARS as int) && out.truncated
            }
        }),
{
    let t: &str = match narrative {
        Some(n) => n,
        None => "",
    };
    proof {
        if narrative is None {
            reveal_strlit("");
        }
    }
    let n = char_count(t);
    if n == 0 {
        NarrativeField { text: None, truncated: false }
    } else if full_narrative || n <= NARRATIVE_PREVIEW_CHARS {
        NarrativeField { text: Some(owned(t)), truncated: false }
    } else {
        NarrativeField { text: Some(take_chars(t, NARRATIVE_PREVIEW_CHARS)), truncated: true }
    }
}

/// A date from a full ISO timestamp: its first 10 bytes when they end on a
/// character boundary, else the whole text
/// (`2024-09-03T22:42:53.000Z` becomes `2024-09-03`).
pub fn date_only(value: &str) -> (out: String)
    ensures
        encode_utf8(out@) == (if vstd::utf8::is_char_boundary(encode_utf8(value@), 10) {
            encode_utf8(value@).subrange(0, 10)
        } else {
            encode_utf8(value@)
        }),
{
    if value.is_char_boundary(10) {
        let (head, _) = value.split_at(10);
        owned(head)
    } else {
        owned(value)
    }
}

/// `get_complaint`: the request path for one complaint. The id, trimmed,
/// must be a non-empty run of ASCII digits.
pub fn complaint_path(complaint_id: &str) -> (out: Result<String, CfpbError>)
    ensures
        ({
            let id = trim_spec(complaint_id@);
            if id.len() > 0 && (forall|i: int| 0 <= i < id.len() ==> crate::text::is_digit(#[trigger] id[i])) {
                out matches Ok(p) && p@ == "/"@ + id
            } else {
                out matches Err(CfpbError::InvalidArgument(m))
                    && m@ == "complaint_id must be a numeric complaint identifier, got "@ + debug_text(complaint_id@)
            }
        }),
{
    let id = trim(complaint_id);
    let mut all_digits = id.len() > 0;
    let mut i: usize = 0;
    while i < id.len()
        invariant
            i <= id.len(),
            id@ == trim_spec(complaint_id@),
            all_digits == (id.len() > 0 && forall|j: int| 0 <= j < i ==> crate::text::is_digit(#[trigger] id@[j])),
        decreases id.len() - i,
    {
        if !('0' <= id[i] && id[i] <= '9') {
            all_digits = false;
        }
        i = i + 1;
    }
    if all_digits {
        let mut p = String::new();
        push_char(&mut p, '/');
        crate::text::push_chars(&mut p, id.as_slice());
        assert(p@ =~= "/"@ + id@) by { reveal_strlit("/"); }
        Ok(p)
    } else {
        let q = debug_quoted(complaint_id);
        Err(bad_complaint_id(q.as_str()))
    }
}

/// The error for a complaint id that is not a run of digits, given the id
/// as `{:?}` quotes it.
pub fn bad_complaint_id(quoted: &str) -> (out: CfpbError)
    ensures
        out matches CfpbError::InvalidArgument(m)
            && m@ == "complaint_id must be a numeric complaint identifier, got "@ + quoted@,
{
    let mut m = String::new();
    push_str(&mut m, "complaint_id must be a numeric complaint identifier, got ");
    push_str(&mut m, quoted);
    CfpbError::InvalidArgument(m)
}

/// `complaint_stats`: the query for facet counts only (`size=0`).
pub fn stats_query(filters: &Filters) -> (out: Query)
    ensures
        out@ == applied(*filters, Seq::empty()).push(("size"@, decimal(0))),
{
    let mut query = Query::new();
    filters.apply(&mut query);
    query.push_num("size", 0);
    query
}

/// The number of facet buckets shown, capped at [`MAX_TOP`].
pub fn top_limit(top: usize) -> (out: usize)
    ensures
        out == (if top < MAX_TOP { top } else { MAX_TOP }),
{
    if top < MAX_TOP { top } else { MAX_TOP }
}

/// The error for a `group_by` the upstream returned no facet for.
pub fn unknown_facet(group_by: &str) -> (out: CfpbError)
    ensures
        out matches CfpbError::InvalidArgument(m) && m@ == "unknown group_by "@ + debug_text(group_by@)
            + " \u{2014} the CFPB API returned no such facet"@,
{
    let q = debug_quoted(group_by);
    facet_error(q.as_str())
}

/// The error for a `group_by` with no facet, given the name as `{:?}`
/// quotes it.
pub fn facet_error(quoted: &str) -> (out: CfpbError)
    ensures
        out matches CfpbError::InvalidArgument(m) && m@ == "unknown group_by "@ + quoted@
            + " \u{2014} the CFPB API returned no such facet"@,
{
    let mut m = String::new();
    push_str(&mut m, "unknown group_by ");
    push_str(&mut m, quoted);
    push_str(&mut m, " \u{2014} the CFPB API returned no such facet");
    CfpbError::InvalidArgument(m)
}

/// One facet bucket of a stats response: its key (the `key_as_string`
/// label, else the key as text), its count, and, on the product facet, its
/// sub-product buckets.
#[derive(Debug)]
pub struct FacetBucket {
    pub key: String,
    pub count: u64,
    pub sub_groups: Option<Vec<(String, u64)>>,
}

/// The first `top` sub-buckets of a bucket.
pub open spec fn capped_subs(b: FacetBucket, top: usize) -> Option<Seq<(String, u64)>> {
    match b.sub_groups {
        Some(v) => Some(if v@.len() <= top { v@ } else { v@.take(top as int) }),
        None => None,
    }
}

/// The facet groups a stats result shows: the first `top` buckets, in the
/// upstream's order, each with at most `top` sub-groups; and whether any
/// bucket was left out.
pub fn ranked_groups(buckets: Vec<FacetBucket>, top: usize) -> (out: (Vec<FacetBucket>, bool))
    ensures
        out.1 == (buckets@.len() > top),
        out.0@.len() == (if buckets@.len() <= top { buckets@.len() } else { top as nat }),
        forall|k: int| 0 <= k < out.0@.len() ==> {
            &&& (#[trigger] out.0@[k]).key == buckets@[k].key
            &&& out.0@[k].count == buckets@[k].count
            &&& match out.0@[k].sub_groups {
                Some(v) => capped_subs(buckets@[k], top) == Some(v@),
                None => buckets@[k].sub_groups is None,
            }
        },
{
    let truncated = buckets.len() > top;
    let ghost all = buckets@;
    let mut rest = buckets;
    rest.truncate(top);
    let mut out: Vec<FacetBucket> = Vec::new();
    let mut taken: Vec<FacetBucket> = Vec::new();
    let n = rest.len();
    // Move the kept buckets out in reverse, then restore their order.
    while rest.len() > 0
        invariant
            n == (if all.len() <= top { all.len() } else { top as nat }),
            rest@ == all.take(rest@.len() as int),
            rest@.len() + taken@.len() == n,
            forall|k: int| 0 <= k < taken@.len() ==> {
                &&& (#[trigger] taken@[k]).key == all[n - 1 - k].key
                &&& taken@[k].count == all[n - 1 - k].count
                &&& match taken@[k].sub_groups {
                    Some(v) => capped_subs(all[n - 1 - k], top) == Some(v@),
                    None => all[n - 1 - k].sub_groups is None,
                }
            },
        decreases rest@.len(),
    {
        let b = rest.pop().unwrap();
        let ghost idx = rest@.len() as int;
        assert(b == all[idx]);
        let subs = match b.sub_groups {
            Some(mut v) => {
                v.truncate(top);
                Some(v)
            },
            None => None,
        };
        let ghost before = taken@;
        taken.push(FacetBucket { key: b.key, count: b.count, sub_groups: subs });
        assert forall|k: int| 0 <= k < taken@.len() implies {
            &&& (#[trigger] taken@[k]).key == all[n - 1 - k].key
            &&& taken@[k].count == all[n - 1 - k].count
            &&& match taken@[k].sub_groups {
                Some(v) => capped_subs(all[n - 1 - k], top) == Some(v@),
                None => all[n - 1 - k].sub_groups is None,
            }
        } by {
            if k < before.len() {
                assert(taken@[k] == before[k]);
            }
        }
    }
    while taken.len() > 0
        invariant
            n == (if all.len() <= top { all.len() } else { top as nat }),
            out@.len() + taken@.len() == n,
            forall|k: int| 0 <= k < taken@.len() ==> {
                &&& (#[trigger] taken@[k]).key == all[n - 1 - k].key
                &&& taken@[k].count == all[n - 1 - k].count
                &&& match taken@[k].sub_groups {
                    Some(v) => capped_subs(all[n - 1 - k], top) == Some(v@),
                    None => all[n - 1 - k].sub_groups is None,
                }
            },
            forall|k: int| 0 <= k < out@.len() ==> {
                &&& (#[trigger] out@[k]).key == all[k].key
                &&& out@[k].count == all[k].count
                &&& match out@[k].sub_groups {
                    Some(v) => capped_subs(all[k], top) == Some(v@),
                    None => all[k].sub_groups is None,
                }
            },
        decreases taken@.len(),
    {
        let b = taken.pop().unwrap();
        let ghost idx = taken@.len() as int;
        let ghost before = out@;
        out.push(b);
        assert forall|k: int| 0 <= k < out@.len() implies {
            &&& (#[trigger] out@[k]).key == all[k].key
            &&& out@[k].count == all[k].count
            &&& match out@[k].sub_groups {
                Some(v) => capped_subs(all[k], top) == Some(v@),
                None => all[k].sub_groups is None,
            }
        } by {
            if k < before.len() {
                assert(out@[k] == before[k]);
            }
        }
    }
    (out, truncated)
}

/// One point of a trend series: the period's date and its count.
#[derive(Debug)]
pub struct TrendPoint {
    pub period: Option<String>,
    pub count: u64,
}

/// One category of a lensed trends response, with its series as the
/// upstream gives it (newest first).
#[derive(Debug)]
pub struct CategoryTrend {
    pub key: String,
    pub count: u64,
    pub series: Vec<TrendPoint>,
}

/// `v` in reverse order.
pub fn reversed<T>(v: Vec<T>) -> (out: Vec<T>)
    ensures
        out@ == v@.reverse(),
{
    let ghost all = v@;
    let mut rest = v;
    let mut out: Vec<T> = Vec::new();
    while rest.len() > 0
        invariant
            rest@ == all.take(rest@.len() as int),
            rest@.len() <= all.len(),
            out@.len() == all.len() - rest@.len(),
            forall|k: int| 0 <= k < out@.len() ==> #[trigger] out@[k] == all[all.len() - 1 - k],
        decreases rest@.len(),
    {
        let ghost before = out@;
        let ghost r = rest@.len();
        let x = rest.pop().unwrap();
        assert(x == all[r - 1]);
        assert(rest@ =~= all.take(r - 1));
        out.push(x);
        assert forall|k: int| 0 <= k < out@.len() implies #[trigger] out@[k] == all[all.len() - 1 - k] by {
            if k < before.len() {
                assert(out@[k] == before[k]);
            }
        }
    }
    assert(out@ =~= all.reverse());
    out
}

/// The categories a trends result shows: the first `top`, each with its
/// series turned oldest-first, as a time series reads everywhere else.
pub fn category_series(buckets: Vec<CategoryTrend>, top: usize) -> (out: Vec<CategoryTrend>)
    ensures
        out@.len() == (if buckets@.len() <= top { buckets@.len() } else { top as nat }),
        forall|k: int| 0 <= k < out@.len() ==> {
            &&& (#[trigger] out@[k]).key == buckets@[k].key
            &&& out@[k].count == buckets@[k].count
            &&& out@[k].series@ == buckets@[k].series@.reverse()
        },
{
    let mut kept = buckets;
    let ghost all = kept@;
    kept.truncate(top);
    let taken = reversed(kept);
    let mut rest = taken;
    let ghost mid = rest@;
    let n = rest.len();
    let mut out: Vec<CategoryTrend> = Vec::new();
    while rest.len() > 0
        invariant
            n == (if all.len() <= top { all.len() } else { top as nat }),
            mid.len() == n,
            forall|k: int| 0 <= k < n ==> #[trigger] mid[k] == all[n - 1 - k],
            rest@ == mid.take(rest@.len() as int),
            out@.len() + rest@.len() == n,
            forall|k: int| 0 <= k < out@.len() ==> {
                &&& (#[trigger] out@[k]).key == all[k].key
                &&& out@[k].count == all[k].count
                &&& out@[k].series@ == all[k].series@.reverse()
            },
        decreases rest@.len(),
    {
        let c = rest.pop().unwrap();
        let ghost idx = rest@.len() as int;
        assert(c == mid[idx]);
        let series = reversed(c.series);
        let ghost before = out@;
        out.push(CategoryTrend { key: c.key, count: c.count, series });
        assert forall|k: int| 0 <= k < out@.len() implies {
            &&& (#[trigger] out@[k]).key == all[k].key
            &&& out@[k].count == all[k].count
            &&& out@[k].series@ == all[k].series@.reverse()
        } by {
            if k < before.len() {
                assert(out@[k] == before[k]);
            }
        }
    }
    out
}

/// The per-category series a trends result shows: none for the `overview`
/// lens, which has no categories; for any other lens, the first `top`
/// categories, each series turned oldest-first.
pub fn trend_categories(lens: &str, buckets: Vec<CategoryTrend>, top: usize) -> (out: Vec<CategoryTrend>)
    ensures
        lens@ == "overview"@ ==> out@.len() == 0,
        lens@ != "overview"@ ==> {
            &&& out@.len() == (if buckets@.len() <= top { buckets@.len() } else { top as nat })
            &&& forall|k: int| 0 <= k < out@.len() ==> {
                &&& (#[trigger] out@[k]).key == buckets@[k].key
                &&& out@[k].count == buckets@[k].count
                &&& out@[k].series@ == buckets@[k].series@.reverse()
            }
        },
{
    if str_eq(lens, "overview") {
        Vec::new()
    } else {
        category_series(buckets, top)
    }
}

/// The second dimension supplied for a categorical lens that arrives
/// without one: the upstream rejects such a lens without a `sub_lens`.
pub open spec fn default_sub_lens_spec(lens: Seq<char>) -> Option<Seq<char>> {
    if lens == "product"@ {
        Some("issue"@)
    } else if lens == "issue"@ || lens == "company"@ || lens == "tags"@ {
        Some("product"@)
    } else {
        None
    }
}

/// The default second dimension for a lens. An unrecognized lens goes
/// upstream untouched, so its own error message reaches the caller.
pub fn default_sub_lens(lens: &str) -> (out: Option<&'static str>)
    ensures
        out is Some ==> default_sub_lens_spec(lens@) == Some(out->0@),
        out is None ==> default_sub_lens_spec(lens@) is None,
{
    proof {
        reveal_strlit("overview");
        reveal_strlit("product");
        reveal_strlit("issue");
        reveal_strlit("company");
        reveal_strlit("tags");
        assert("company"@[0] != "product"@[0]);
        assert("overview"@ != "product"@);
        assert("issue"@ != "product"@);
        assert("tags"@ != "product"@);
        assert("overview"@.len() == 8 && "issue"@.len() == 5 && "company"@.len() == 7 && "tags"@.len() == 4);
        assert("overview"@ != "issue"@ && "overview"@ != "company"@ && "overview"@ != "tags"@);
    }
    if str_eq(lens, "overview") {
        None
    } else if str_eq(lens, "product") {
        Some("issue")
    } else if str_eq(lens, "issue") {
        assert(default_sub_lens_spec(lens@) == Some("product"@));
        Some("product")
    } else if str_eq(lens, "company") {
        assert(default_sub_lens_spec(lens@) == Some("product"@));
        Some("product")
    } else if str_eq(lens, "tags") {
        assert(default_sub_lens_spec(lens@) == Some("product"@));
        Some("product")
    } else {
        None
    }
}

/// The sub-lens a trends query uses: the caller's, trimmed, when non-empty;
/// else the lens's default.
pub open spec fn sub_lens_spec(lens: Seq<char>, sub_lens: Option<Seq<char>>) -> Option<Seq<char>> {
    match sub_lens {
        Some(s) if trim_spec(s).len() > 0 => Some(trim_spec(s)),
        _ => default_sub_lens_spec(lens),
    }
}

/// The sub-lens a trends query uses.
pub fn effective_sub_lens(lens: &str, sub_lens: Option<&str>) -> (out: Option<String>)
    ensures
        match out {
            Some(s) => sub_lens_spec(lens@, match sub_lens { Some(t) => Some(t@), None => None }) == Some(s@),
            None => sub_lens_spec(lens@, match sub_lens { Some(t) => Some(t@), None => None }) is None,
        },
{
    match sub_lens {
        Some(s) => {
            let t = trim(s);
            if t.len() > 0 {
                return Some(chars_to_string(&t));
            }
        },
        None => {},
    }
    match default_sub_lens(lens) {
        Some(d) => Some(owned(d)),
        None => None,
    }
}

/// `complaint_trends`: the query for a volume time series, split by a
/// categorical lens unless the lens is `overview`.
pub fn trends_query(filters: &Filters, lens: &str, sub_lens: Option<&str>, interval: &str) -> (out: Query)
    ensures
        out@ == ({
            let q = applied(*filters, Seq::empty());
            let q = pushed(pushed(q, "lens"@, lens@), "trend_interval"@, interval@);
            if lens@ != "overview"@ {
                match sub_lens { Some(s) => pushed(q, "sub_lens"@, s@), None => q }
            } else {
                q
            }
        }),
{
    let mut query = Query::new();
    filters.apply(&mut query);
    query.push("lens", lens).push("trend_interval", interval);
    if !str_eq(lens, "overview") {
        query.push_opt("sub_lens", sub_lens);
    }
    query
}

/// `suggest_company`: the trimmed text and the query for company-name
/// autocomplete; empty text is refused.
pub fn suggest_query(text: &str) -> (out: Result<(String, Query), CfpbError>)
    ensures
        trim_spec(text@).len() == 0 ==> (out matches Err(CfpbError::InvalidArgument(m))
            && m@ == "text must not be empty"@),
        trim_spec(text@).len() > 0 ==> (out matches Ok((t, q)) && t@ == trim_spec(text@)
            && q@ == seq![("text"@, trim_spec(text@))]),
{
    let t = trim(text);
    if t.len() == 0 {
        return Err(CfpbError::InvalidArgument(owned("text must not be empty")));
    }
    let trimmed = chars_to_string(&t);
    let mut query = Query::new();
    query.push("text", trimmed.as_str());
    assert(query@ == pushed(Seq::empty(), "text"@, trimmed@));
    proof {
        crate::text::lemma_trim_idempotent(text@);
    }
    assert(query@ =~= seq![("text"@, trim_spec(text@))]);
    Ok((trimmed, query))
}

} // verus!
