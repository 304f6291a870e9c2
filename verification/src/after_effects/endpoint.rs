//! The endpoints the After Effects panel polls, outside the MCP transport:
//! routing, query parameters, and whether a polling panel is served.
use vstd::prelude::*;
use crate::text::{
    chars_of, find_char, parse_u64, parse_u64_spec, position_of, slice_chars, split_chars, split_on, str_eq,
    trim_chars, trim_spec, string_of, push_str, push_decimal, decimal,
};
use crate::after_effects::state::{
    BridgeStore, CommandStatus, QueuedCommand, record_poll, register_client, register_spec, registered_client,
    take_pending_command,
};

verus! {

/// The note a refused panel poll carries.
pub const STALE_PANEL_NOTE: &'static str = "this panel is outdated or has been superseded by a newer panel instance; reinstall with ./install-bridge.sh and reopen Window > mcp-bridge-auto.jsx";

/// The body `GET /healthz` answers with.
pub const HEALTH_BODY: &'static str = "ok\n";

/// A bridge endpoint.
#[derive(Clone, Copy, Debug, PartialEq, Eq, Structural)]
pub enum BridgeRoute {
    /// `GET /bridge/command`: the panel's poll, which claims the pending
    /// command.
    Command,
    /// `POST /bridge/result`: the panel's result report.
    Result,
    /// `GET /bridge/panel.jsx`: the panel source.
    PanelScript,
    /// `GET /healthz`.
    Health,
}

/// The bridge endpoint a request names, or `None` for the MCP transport.
pub open spec fn route_spec(method: Seq<char>, path: Seq<char>) -> Option<BridgeRoute> {
    if method == "GET"@ && path == "/bridge/command"@ {
        Some(BridgeRoute::Command)
    } else if method == "POST"@ && path == "/bridge/result"@ {
        Some(BridgeRoute::Result)
    } else if method == "GET"@ && path == "/bridge/panel.jsx"@ {
        Some(BridgeRoute::PanelScript)
    } else if method == "GET"@ && path == "/healthz"@ {
        Some(BridgeRoute::Health)
    } else {
        None
    }
}

/// Routes a request by method and path.
pub fn bridge_route(method: &str, path: &str) -> (out: Option<BridgeRoute>)
    ensures
        out == route_spec(method@, path@),
{
    if str_eq(method, "GET") && str_eq(path, "/bridge/command") {
        Some(BridgeRoute::Command)
    } else if str_eq(method, "POST") && str_eq(path, "/bridge/result") {
        Some(BridgeRoute::Result)
    } else if str_eq(method, "GET") && str_eq(path, "/bridge/panel.jsx") {
        Some(BridgeRoute::PanelScript)
    } else if str_eq(method, "GET") && str_eq(path, "/healthz") {
        Some(BridgeRoute::Health)
    } else {
        None
    }
}

/// The value of the first `name=value` pair among `pairs` whose key is
/// `name`; pairs without `=` are skipped.
pub open spec fn lookup_pair(pairs: Seq<Seq<char>>, name: Seq<char>) -> Option<Seq<char>>
    decreases pairs.len(),
{
    if pairs.len() == 0 {
        None
    } else {
        let p = pairs[0];
        let eq = position_of(p, '=');
        if eq < p.len() && p.subrange(0, eq as int) == name {
            Some(p.subrange(eq as int + 1, p.len() as int))
        } else {
            lookup_pair(pairs.drop_first(), name)
        }
    }
}

/// What `param` reads: the first pair keyed `name`, parsed as a `u64`.
pub open spec fn param_spec(query: Seq<char>, name: Seq<char>) -> Option<u64> {
    match lookup_pair(split_on(query, '&'), name) {
        Some(v) => parse_u64_spec(v),
        None => None,
    }
}

/// Reads one `name=value` pair out of a query string: the first pair whose
/// key is `name`, its value parsed as an unsigned integer (`None` when the
/// pair is absent or its value does not parse).
pub fn param(query: &str, name: &str) -> (out: Option<u64>)
    ensures
        out == param_spec(query@, name@),
{
    let q = chars_of(query);
    let pairs = split_chars(q.as_slice(), '&');
    let ghost all = split_on(query@, '&');
    assert(all.subrange(0, all.len() as int) =~= all);
    let mut i: usize = 0;
    while i < pairs.len()
        invariant
            i <= pairs.len(),
            all == split_on(query@, '&'),
            pairs@.len() == all.len(),
            forall|k: int| 0 <= k < pairs@.len() ==> (#[trigger] pairs@[k])@ == all[k],
            lookup_pair(all, name@) == lookup_pair(all.subrange(i as int, all.len() as int), name@),
        decreases pairs.len() - i,
    {
        let p = &pairs[i];
        let eq = find_char(p.as_slice(), '=');
        let ghost rest = all.subrange(i as int, all.len() as int);
        assert(rest[0] == p@);
        assert(rest.drop_first() =~= all.subrange(i + 1, all.len() as int));
        if eq < p.len() {
            let key = slice_chars(p.as_slice(), 0, eq);
            let key_str = string_of(key.as_slice());
            if str_eq(key_str.as_str(), name) {
                let value = slice_chars(p.as_slice(), eq + 1, p.len());
                assert(p@.subrange(0, eq as int) == name@);
                assert(lookup_pair(rest, name@) == Some(p@.subrange(eq as int + 1, p@.len() as int)));
                return parse_u64(value.as_slice());
            }
        }
        i = i + 1;
    }
    None
}

/// Whether a polling panel is served commands: it speaks protocol `v=2` and
/// is the newest panel instance.
pub fn panel_served(query: Option<&str>, is_current: bool) -> (out: bool)
    ensures
        out == (query matches Some(q) && param_spec(q@, "v"@) == Some(2u64) && is_current),
{
    match query {
        Some(q) => is_current && match param(q, "v") {
            Some(v) => v == 2,
            None => false,
        },
        None => false,
    }
}

/// The panel instance a poll names (`client=`), 0 when it names none.
pub fn poll_client(query: Option<&str>) -> (out: u64)
    ensures
        out == (match query {
            Some(q) => match param_spec(q@, "client"@) { Some(c) => c, None => 0 },
            None => 0,
        }),
{
    match query {
        Some(q) => match param(q, "client") {
            Some(c) => c,
            None => 0,
        },
        None => 0,
    }
}

/// The command id a result report names (`id=`).
pub fn report_id(query: Option<&str>) -> (out: Option<u64>)
    ensures
        out == (match query {
            Some(q) => param_spec(q@, "id"@),
            None => None,
        }),
{
    match query {
        Some(q) => param(q, "id"),
        None => None,
    }
}

/// The trimmed, non-empty pieces of `parts`, in order.
pub open spec fn trimmed_nonempty(parts: Seq<Seq<char>>) -> Seq<Seq<char>>
    decreases parts.len(),
{
    if parts.len() == 0 {
        Seq::empty()
    } else {
        let rest = trimmed_nonempty(parts.drop_last());
        let t = trim_spec(parts.last());
        if t.len() == 0 { rest } else { rest.push(t) }
    }
}

/// The hosts an `MCP_ALLOWED_HOSTS` value admits: none (the guard is
/// disabled) for `*`, else its comma-separated entries, trimmed, empty ones
/// dropped.
pub open spec fn allowed_hosts_spec(value: Seq<char>) -> Seq<Seq<char>> {
    if trim_spec(value) == "*"@ {
        Seq::empty()
    } else {
        trimmed_nonempty(split_on(value, ','))
    }
}

/// Parses `MCP_ALLOWED_HOSTS`. An empty list disables the DNS-rebinding
/// guard, which is what `*` asks for.
pub fn allowed_hosts(value: &str) -> (out: Vec<String>)
    ensures
        out@.len() == allowed_hosts_spec(value@).len(),
        forall|k: int| 0 <= k < out@.len() ==> (#[trigger] out@[k])@ == allowed_hosts_spec(value@)[k],
{
    let cs = chars_of(value);
    let whole = trim_chars(cs.as_slice());
    let whole_str = string_of(whole.as_slice());
    if str_eq(whole_str.as_str(), "*") {
        return Vec::new();
    }
    let parts = split_chars(cs.as_slice(), ',');
    let ghost all = split_on(value@, ',');
    let mut out: Vec<String> = Vec::new();
    let mut i: usize = 0;
    while i < parts.len()
        invariant
            i <= parts.len(),
            parts@.len() == all.len(),
            forall|k: int| 0 <= k < parts@.len() ==> (#[trigger] parts@[k])@ == all[k],
            out@.len() == trimmed_nonempty(all.take(i as int)).len(),
            forall|k: int| 0 <= k < out@.len() ==> (#[trigger] out@[k])@ == trimmed_nonempty(all.take(i as int))[k],
        decreases parts.len() - i,
    {
        let t = trim_chars(parts[i].as_slice());
        assert(all.take(i + 1).drop_last() =~= all.take(i as int));
        assert(all.take(i + 1).last() == parts@[i as int]@);
        if t.len() > 0 {
            let ghost before = out@;
            out.push(string_of(t.as_slice()));
            assert forall|k: int| 0 <= k < out@.len() implies (#[trigger] out@[k])@
                == trimmed_nonempty(all.take(i + 1))[k] by {
                if k < before.len() {
                    assert(out@[k] == before[k]);
                }
            }
        }
        i = i + 1;
    }
    assert(all.take(i as int) =~= all);
    out
}

/// The panel instance a poll names, as [`poll_client`] reads it.
pub open spec fn poll_client_spec(query: Option<&str>) -> u64 {
    match query {
        Some(q) => match param_spec(q@, "client"@) { Some(c) => c, None => 0 },
        None => 0,
    }
}

/// Whether a poll is served, as [`panel_served`] decides it.
pub open spec fn served_spec(query: Option<&str>, is_current: bool) -> bool {
    query matches Some(q) && param_spec(q@, "v"@) == Some(2u64) && is_current
}

/// What a command poll is answered with.
#[derive(Debug)]
pub enum PollReply {
    /// The pending command, now dispatched to this panel.
    Dispatch(QueuedCommand),
    /// `{"command": null}`: nothing is pending.
    Idle,
    /// `{"command": null, "note": ...}` with [`STALE_PANEL_NOTE`]: the panel
    /// is outdated or superseded.
    Refused,
}

/// Serves `GET /bridge/command`: registers the polling panel instance,
/// stamps the poll (on the served or the stale stamp), and, for a served
/// panel, hands it the pending command.
pub fn serve_command_poll(store: &mut BridgeStore, query: Option<&str>, now_ms: u64) -> (out: PollReply)
    ensures
        ({
            let client = poll_client_spec(query);
            let serving = served_spec(query, register_spec(old(store).client, client));
            &&& final(store).client == registered_client(old(store).client, client)
            &&& final(store).seq == old(store).seq
            &&& final(store).result == old(store).result
            &&& serving ==> final(store).last_poll_ms == Some(now_ms)
                && final(store).last_stale_poll_ms == old(store).last_stale_poll_ms
            &&& !serving ==> final(store).last_stale_poll_ms == Some(now_ms)
                && final(store).last_poll_ms == old(store).last_poll_ms
            &&& !serving ==> out is Refused && final(store).command == old(store).command
            &&& serving ==> match old(store).command {
                Some(c) if c.status == CommandStatus::Pending => {
                    &&& out matches PollReply::Dispatch(o) && o.id == c.id && o.command@ == c.command@
                        && o.args_json@ == c.args_json@ && o.status == CommandStatus::Dispatched
                        && o.queued_at_ms == c.queued_at_ms
                    &&& final(store).command matches Some(n) && n.id == c.id && n.command@ == c.command@
                        && n.args_json@ == c.args_json@ && n.status == CommandStatus::Dispatched
                        && n.queued_at_ms == c.queued_at_ms
                },
                _ => out is Idle && final(store).command == old(store).command,
            }
        }),
{
    let client = poll_client(query);
    let current = register_client(store, client);
    let serving = panel_served(query, current);
    record_poll(store, serving, now_ms);
    if serving {
        match take_pending_command(store) {
            Some(c) => PollReply::Dispatch(c),
            None => PollReply::Idle,
        }
    } else {
        PollReply::Refused
    }
}

/// The body of the `413` answer to a request larger than `limit` bytes.
pub open spec fn too_large_text(limit: u64) -> Seq<char> {
    "Payload Too Large: request body exceeds "@ + decimal(limit as nat) + " bytes"@
}

/// The body of the `413` answer to a request larger than `limit` bytes.
pub fn payload_too_large_message(limit: u64) -> (out: String)
    ensures
        out@ == too_large_text(limit),
{
    let mut out = String::new();
    push_str(&mut out, "Payload Too Large: request body exceeds ");
    push_decimal(&mut out, limit);
    push_str(&mut out, " bytes");
    out
}

/// Whether a request body of `len` bytes is read at all: a body over
/// `limit` bytes is refused before anything else, routing included, with
/// a `413` whose body this returns; `None` admits the request.
pub fn admit_body(len: u64, limit: u64) -> (out: Option<String>)
    ensures
        (out is Some) == (len > limit),
        out matches Some(m) ==> m@ == too_large_text(limit),
{
    if len > limit {
        Some(payload_too_large_message(limit))
    } else {
        None
    }
}

} // verus!
