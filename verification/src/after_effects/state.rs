//! The bridge command queue that connects an MCP tool call to the After
//! Effects panel.
//!
//! A tool call and the panel poll that serves it are separate HTTP requests,
//! so the queue lives in a host key-value bucket, not in memory. This module
//! is the queue's logic over the bucket's contents as plain values: one
//! pending command, one latest result, a sequence counter, the newest panel
//! instance, and two poll timestamps. Reading the bucket into a
//! [`BridgeStore`] and writing the changed keys back is the caller's I/O.
use vstd::prelude::*;
use crate::text::{push_char, push_str};

verus! {

/// Where a queued command stands.
#[derive(Clone, Copy, Debug, PartialEq, Eq, Structural)]
pub enum CommandStatus {
    /// Queued, not yet claimed by the panel.
    Pending,
    /// Claimed by the panel, which is executing it.
    Dispatched,
    /// The panel reported a result for it.
    Completed,
}

/// The command in the queue.
#[derive(Debug)]
pub struct QueuedCommand {
    /// Sequence number; results are matched to commands by it.
    pub id: u64,
    /// The panel dispatch-table name, e.g. `createTextLayer`.
    pub command: String,
    /// The command's arguments, as JSON text.
    pub args_json: String,
    pub status: CommandStatus,
    /// Wall-clock milliseconds when it was queued.
    pub queued_at_ms: u64,
}

/// What the library reads of a result body the panel posted.
#[derive(Debug)]
pub struct PanelReport {
    /// The body is a JSON object (an unparseable body is read as the
    /// object `{"raw": ...}`, so it counts as one).
    pub is_object: bool,
    /// The object's own `_commandId`, if it carries a `u64` one.
    pub own_command_id: Option<u64>,
    /// The object's `status` field, if it is a string.
    pub status: Option<String>,
    /// The object's `success` field, if it is a boolean.
    pub success: Option<bool>,
}

/// The latest result, as stored.
#[derive(Debug)]
pub struct StoredResult {
    /// The `_commandId` the stored result carries.
    pub command_id: Option<u64>,
    /// The `_receivedAtMs` stamp, set on object results.
    pub received_at_ms: Option<u64>,
    pub report: PanelReport,
}

/// The bucket's contents.
#[derive(Debug)]
pub struct BridgeStore {
    /// The sequence counter, if set.
    pub seq: Option<u64>,
    /// The newest panel instance id seen, if any.
    pub client: Option<u64>,
    pub command: Option<QueuedCommand>,
    pub result: Option<StoredResult>,
    /// Wall-clock milliseconds of the last poll from a panel we serve.
    pub last_poll_ms: Option<u64>,
    /// Wall-clock milliseconds of the last poll from a panel we refuse.
    pub last_stale_poll_ms: Option<u64>,
}

/// The key under which the bucket holds `suffix`, namespaced by `prefix`.
pub open spec fn key_spec(prefix: Seq<char>, suffix: Seq<char>) -> Seq<char> {
    prefix + seq![':'] + suffix
}

/// `prefix:suffix`.
pub fn key(prefix: &str, suffix: &str) -> (out: String)
    ensures
        out@ == key_spec(prefix@, suffix@),
{
    let mut out = String::new();
    push_str(&mut out, prefix);
    push_char(&mut out, ':');
    push_str(&mut out, suffix);
    assert(out@ =~= key_spec(prefix@, suffix@));
    out
}

/// The namespace used when none is configured.
pub const DEFAULT_KEY_PREFIX: &'static str = "after-effects-mcp";
pub const KEY_COMMAND: &'static str = "command";
pub const KEY_RESULT: &'static str = "result";
pub const KEY_SEQ: &'static str = "seq";
pub const KEY_LAST_POLL: &'static str = "last-poll-ms";
pub const KEY_LAST_STALE_POLL: &'static str = "last-stale-poll-ms";
pub const KEY_CLIENT: &'static str = "client";

/// How often a waiting tool call re-reads the store, in milliseconds.
pub const POLL_INTERVAL_MS: u64 = 200;

/// `x` clamped to the `u64` range from above.
pub open spec fn clamp_u64(x: int) -> int {
    if x > u64::MAX { u64::MAX as int } else { x }
}

/// Wall-clock milliseconds from a clock reading of whole seconds and
/// nanoseconds since the Unix epoch: a pre-epoch reading counts as 0
/// seconds, and the arithmetic saturates.
pub fn wall_ms_of(seconds: i64, nanoseconds: u32) -> (out: u64)
    ensures
        out == clamp_u64(clamp_u64((if seconds < 0 { 0 } else { seconds as int }) * 1000) + nanoseconds as int / 1000000),
{
    let secs: u64 = if seconds < 0 { 0 } else { seconds as u64 };
    let ms: u64 = if secs > u64::MAX / 1000 { u64::MAX } else { secs * 1000 };
    assert(secs > u64::MAX / 1000 ==> secs * 1000 > u64::MAX) by (nonlinear_arith);
    ms.saturating_add(nanoseconds as u64 / 1000000)
}

/// The next sequence number after `seq`.
pub open spec fn next_seq_spec(seq: Option<u64>) -> u64 {
    match seq {
        Some(n) => if n == u64::MAX { u64::MAX } else { (n + 1) as u64 },
        None => 1,
    }
}

fn copy_string(s: &String) -> (out: String)
    ensures
        out@ == s@,
{
    s.clone()
}

impl QueuedCommand {
    /// A copy of this command.
    pub fn copy(&self) -> (out: QueuedCommand)
        ensures
            out.id == self.id,
            out.command@ == self.command@,
            out.args_json@ == self.args_json@,
            out.status == self.status,
            out.queued_at_ms == self.queued_at_ms,
    {
        QueuedCommand {
            id: self.id,
            command: copy_string(&self.command),
            args_json: copy_string(&self.args_json),
            status: self.status,
            queued_at_ms: self.queued_at_ms,
        }
    }
}

/// Advances the sequence counter and returns the new value (saturating).
pub fn next_seq(store: &mut BridgeStore) -> (out: u64)
    ensures
        out == next_seq_spec(old(store).seq),
        final(store).seq == Some(out),
        final(store).client == old(store).client,
        final(store).command == old(store).command,
        final(store).result == old(store).result,
        final(store).last_poll_ms == old(store).last_poll_ms,
        final(store).last_stale_poll_ms == old(store).last_stale_poll_ms,
{
    let current = match store.seq {
        Some(n) => n,
        None => 0,
    };
    let next = current.saturating_add(1);
    store.seq = Some(next);
    next
}

/// Queues a command for the panel and returns its id. The queued command
/// replaces whatever command was there.
pub fn queue_command(store: &mut BridgeStore, command: &str, args_json: &str, now_ms: u64) -> (out: u64)
    ensures
        out == next_seq_spec(old(store).seq),
        final(store).seq == Some(out),
        final(store).command matches Some(c) && c.id == out && c.command@ == command@
            && c.args_json@ == args_json@ && c.status == CommandStatus::Pending && c.queued_at_ms == now_ms,
        final(store).client == old(store).client,
        final(store).result == old(store).result,
        final(store).last_poll_ms == old(store).last_poll_ms,
        final(store).last_stale_poll_ms == old(store).last_stale_poll_ms,
{
    let id = next_seq(store);
    store.command = Some(QueuedCommand {
        id,
        command: command.to_owned(),
        args_json: args_json.to_owned(),
        status: CommandStatus::Pending,
        queued_at_ms: now_ms,
    });
    id
}

/// Whether registering `client_id` over the stored client makes it current.
pub open spec fn register_spec(current: Option<u64>, client_id: u64) -> bool {
    let c = match current { Some(v) => v, None => 0 };
    client_id >= c
}

/// The client stored after registering `client_id` over `current`.
pub open spec fn registered_client(current: Option<u64>, client_id: u64) -> Option<u64> {
    let c = match current { Some(v) => v, None => 0 };
    if client_id > c { Some(client_id) } else { current }
}

/// Registers a polling panel and reports whether it is the current one.
///
/// The highest client id seen wins, so reloading the panel supersedes the
/// previous instance rather than both racing to claim commands. A client id
/// of 0 (a panel that does not identify itself) never supersedes a real one.
pub fn register_client(store: &mut BridgeStore, client_id: u64) -> (out: bool)
    ensures
        out == register_spec(old(store).client, client_id),
        final(store).client == registered_client(old(store).client, client_id),
        final(store).seq == old(store).seq,
        final(store).command == old(store).command,
        final(store).result == old(store).result,
        final(store).last_poll_ms == old(store).last_poll_ms,
        final(store).last_stale_poll_ms == old(store).last_stale_poll_ms,
{
    let current = match store.client {
        Some(v) => v,
        None => 0,
    };
    if client_id > current {
        store.client = Some(client_id);
        return true;
    }
    client_id == current
}

/// The two poll stamps (served, refused) after a poll at `now_ms`.
pub open spec fn poll_stamps(stamps: (Option<u64>, Option<u64>), served: bool, now_ms: u64) -> (Option<u64>, Option<u64>) {
    if served { (Some(now_ms), stamps.1) } else { (stamps.0, Some(now_ms)) }
}

/// The poll stamps after a sequence of polls, each a (served, time) pair,
/// taken in order.
pub open spec fn after_polls(stamps: (Option<u64>, Option<u64>), polls: Seq<(bool, u64)>) -> (Option<u64>, Option<u64>)
    decreases polls.len(),
{
    if polls.len() == 0 {
        stamps
    } else {
        poll_stamps(after_polls(stamps, polls.drop_last()), polls.last().0, polls.last().1)
    }
}

/// The time of the last poll of the given kind in a sequence of polls.
pub open spec fn last_poll_time(polls: Seq<(bool, u64)>, served: bool) -> Option<u64>
    decreases polls.len(),
{
    if polls.len() == 0 {
        None
    } else if polls.last().0 == served {
        Some(polls.last().1)
    } else {
        last_poll_time(polls.drop_last(), served)
    }
}

/// Records a poll from the panel: on the served-poll stamp for a panel we
/// serve, on the stale-poll stamp for one we refuse.
pub fn record_poll(store: &mut BridgeStore, served: bool, now_ms: u64)
    ensures
        (final(store).last_poll_ms, final(store).last_stale_poll_ms)
            == poll_stamps((old(store).last_poll_ms, old(store).last_stale_poll_ms), served, now_ms),
        served ==> final(store).last_poll_ms == Some(now_ms)
            && final(store).last_stale_poll_ms == old(store).last_stale_poll_ms,
        !served ==> final(store).last_stale_poll_ms == Some(now_ms)
            && final(store).last_poll_ms == old(store).last_poll_ms,
        final(store).seq == old(store).seq,
        final(store).client == old(store).client,
        final(store).command == old(store).command,
        final(store).result == old(store).result,
{
    if served {
        store.last_poll_ms = Some(now_ms);
    } else {
        store.last_stale_poll_ms = Some(now_ms);
    }
}

/// Whether the queue holds a command the panel may claim.
pub open spec fn claimable(c: Option<QueuedCommand>) -> bool {
    c matches Some(x) && x.status == CommandStatus::Pending
}

/// Hands the pending command to the panel, marking it dispatched. Returns
/// `None`, changing nothing, when no command is pending. A command is
/// handed out at most once: afterwards nothing is claimable until a new
/// command is queued.
pub fn take_pending_command(store: &mut BridgeStore) -> (out: Option<QueuedCommand>)
    ensures
        out is Some == claimable(old(store).command),
        !claimable(final(store).command),
        match old(store).command {
            Some(c) if c.status == CommandStatus::Pending => {
                &&& out matches Some(o) && o.id == c.id && o.command@ == c.command@
                    && o.args_json@ == c.args_json@ && o.status == CommandStatus::Dispatched
                    && o.queued_at_ms == c.queued_at_ms
                &&& final(store).command matches Some(n) && n.id == c.id && n.command@ == c.command@
                    && n.args_json@ == c.args_json@ && n.status == CommandStatus::Dispatched
                    && n.queued_at_ms == c.queued_at_ms
            },
            _ => out is None && final(store).command == old(store).command,
        },
        final(store).seq == old(store).seq,
        final(store).client == old(store).client,
        final(store).result == old(store).result,
        final(store).last_poll_ms == old(store).last_poll_ms,
        final(store).last_stale_poll_ms == old(store).last_stale_poll_ms,
{
    match &mut store.command {
        Some(c) => {
            if c.status != CommandStatus::Pending {
                return None;
            }
            c.status = CommandStatus::Dispatched;
            Some(c.copy())
        },
        None => None,
    }
}


/// The `_commandId` a stored result carries: the id it was posted for;
/// when none was given, an object's own id (a body that is not an object
/// carries none).
pub open spec fn stamped_id_spec(report: PanelReport, id: Option<u64>) -> Option<u64> {
    match id {
        Some(i) => Some(i),
        None => if report.is_object { report.own_command_id } else { None },
    }
}

/// What is stored of a posted body: an object as it is; any other body
/// wrapped as the object `{"result": body}`, which has no id, status or
/// success field of its own.
pub open spec fn wrapped_report(report: PanelReport) -> PanelReport {
    if report.is_object {
        report
    } else {
        PanelReport { is_object: true, own_command_id: None, status: None, success: None }
    }
}

/// Whether a result posted for `id` completes the queued command `c`.
pub open spec fn completes_spec(c: QueuedCommand, id: Option<u64>) -> bool {
    match id {
        None => true,
        Some(i) => c.id == i,
    }
}

/// Stores a result the panel reported for command `id`, stamped so waiting
/// tool calls can match it to the command they queued (a body that is not
/// a JSON object is wrapped in one first, so it is stamped too), and marks
/// the queued command completed when the result is for it (or names no
/// command).
pub fn store_result(store: &mut BridgeStore, id: Option<u64>, report: PanelReport, now_ms: u64)
    ensures
        final(store).result matches Some(r) && r.report == wrapped_report(report)
            && r.command_id == stamped_id_spec(report, id)
            && r.received_at_ms == Some(now_ms),
        match old(store).command {
            Some(c) => final(store).command matches Some(n) && n.id == c.id && n.command@ == c.command@
                && n.args_json@ == c.args_json@ && n.queued_at_ms == c.queued_at_ms
                && n.status == (if completes_spec(c, id) { CommandStatus::Completed } else { c.status }),
            None => final(store).command is None,
        },
        final(store).seq == old(store).seq,
        final(store).client == old(store).client,
        final(store).last_poll_ms == old(store).last_poll_ms,
        final(store).last_stale_poll_ms == old(store).last_stale_poll_ms,
{
    let command_id = match id {
        Some(i) => Some(i),
        None => if report.is_object { report.own_command_id } else { None },
    };
    let received_at_ms = Some(now_ms);
    let report = if report.is_object {
        report
    } else {
        PanelReport { is_object: true, own_command_id: None, status: None, success: None }
    };
    store.result = Some(StoredResult { command_id, received_at_ms, report });
    match &mut store.command {
        Some(c) => {
            let matches = match id {
                None => true,
                Some(i) => c.id == i,
            };
            if matches {
                c.status = CommandStatus::Completed;
            }
        },
        None => {},
    }
}

/// Whether the stored result answers command `id`.
pub open spec fn answers_spec(result: Option<StoredResult>, id: u64) -> bool {
    match result {
        Some(r) => r.command_id == Some(id),
        None => false,
    }
}

/// Whether the stored result is the answer to command `id` (what a waiting
/// tool call checks on each poll of the store).
pub fn result_answers(store: &BridgeStore, id: u64) -> (out: bool)
    ensures
        out == answers_spec(store.result, id),
{
    match &store.result {
        Some(r) => match r.command_id {
            Some(c) => c == id,
            None => false,
        },
        None => false,
    }
}

/// Milliseconds since the stamp `then`, if there is one (0 when the clock
/// reads earlier than the stamp).
pub open spec fn age_spec(then: Option<u64>, now_ms: u64) -> Option<u64> {
    match then {
        Some(t) => Some(if now_ms >= t { (now_ms - t) as u64 } else { 0 }),
        None => None,
    }
}

fn poll_age(then: Option<u64>, now_ms: u64) -> (out: Option<u64>)
    ensures
        out == age_spec(then, now_ms),
{
    match then {
        Some(t) => Some(now_ms.saturating_sub(t)),
        None => None,
    }
}

/// Milliseconds since a serviceable panel last polled, if one ever has.
pub fn last_poll_age_ms(store: &BridgeStore, now_ms: u64) -> (out: Option<u64>)
    ensures
        out == age_spec(store.last_poll_ms, now_ms),
{
    poll_age(store.last_poll_ms, now_ms)
}

/// Milliseconds since a panel we refused to serve last polled, if one ever
/// has.
pub fn last_stale_poll_age_ms(store: &BridgeStore, now_ms: u64) -> (out: Option<u64>)
    ensures
        out == age_spec(store.last_stale_poll_ms, now_ms),
{
    poll_age(store.last_stale_poll_ms, now_ms)
}

/// Whether the queued command is being executed by the panel.
pub fn command_in_flight(store: &BridgeStore) -> (out: bool)
    ensures
        out == (store.command matches Some(c) && c.status == CommandStatus::Dispatched),
{
    match &store.command {
        Some(c) => c.status == CommandStatus::Dispatched,
        None => false,
    }
}


/// The most recent result, whatever command produced it.
pub fn latest_result(store: &BridgeStore) -> (out: &Option<StoredResult>)
    ensures
        *out == store.result,
{
    &store.result
}

/// The currently queued command, if any, in whatever state it is in.
pub fn current_command(store: &BridgeStore) -> (out: &Option<QueuedCommand>)
    ensures
        *out == store.command,
{
    &store.command
}

/// What a tool call waiting for its result does after one read of the
/// store.
#[derive(Clone, Copy, Debug, PartialEq, Eq, Structural)]
pub enum WaitStep {
    /// The stored result answers the command: hand it back.
    Answered,
    /// The deadline has passed: give up with no result.
    TimedOut,
    /// Sleep this many milliseconds, then read the store again.
    Sleep(u64),
}

/// The monotonic deadline of a wait of `timeout_ms` begun at `start_ms`
/// (saturating).
pub fn wait_deadline(start_ms: u64, timeout_ms: u64) -> (out: u64)
    ensures
        out == (if start_ms + timeout_ms > u64::MAX { u64::MAX as int } else { start_ms + timeout_ms }),
{
    start_ms.saturating_add(timeout_ms)
}

/// One turn of the wait for command `id`'s result: an answering result ends
/// the wait even at the deadline; otherwise the wait ends once the
/// monotonic clock reaches the deadline, and sleeps a poll interval before
/// that.
pub fn wait_step(store: &BridgeStore, id: u64, now_mono_ms: u64, deadline_ms: u64) -> (out: WaitStep)
    ensures
        answers_spec(store.result, id) ==> out == WaitStep::Answered,
        !answers_spec(store.result, id) && now_mono_ms >= deadline_ms ==> out == WaitStep::TimedOut,
        !answers_spec(store.result, id) && now_mono_ms < deadline_ms ==> out == WaitStep::Sleep(POLL_INTERVAL_MS),
{
    if result_answers(store, id) {
        WaitStep::Answered
    } else if now_mono_ms >= deadline_ms {
        WaitStep::TimedOut
    } else {
        WaitStep::Sleep(POLL_INTERVAL_MS)
    }
}

// ---------------------------------------------------------------------------
// Laws
// ---------------------------------------------------------------------------

/// The newest panel wins: once a panel with a higher id has registered, an
/// older one is no longer current; the newest one, if no higher id was ever
/// seen, stays current on every later poll of its own.
pub proof fn law_newest_panel_wins(current: Option<u64>, older: u64, newer: u64)
    requires
        older < newer,
    ensures
        !register_spec(registered_client(registered_client(current, older), newer), older),
        (match current { Some(c) => c <= newer, None => true })
            ==> register_spec(registered_client(registered_client(current, older), newer), newer),
        registered_client(registered_client(registered_client(current, older), newer), newer)
            == registered_client(registered_client(current, older), newer),
{
}

/// A panel that does not identify itself (id 0) never supersedes one that
/// does.
pub proof fn law_anonymous_panel_never_supersedes(current: u64)
    requires
        current > 0,
    ensures
        !register_spec(Some(current), 0),
        registered_client(Some(current), 0) == Some(current),
{
}

/// Sequence numbers increase strictly until the counter saturates, so every
/// queued command gets an id no earlier command had.
pub proof fn law_sequence_increases(seq: Option<u64>)
    requires
        seq != Some(u64::MAX),
    ensures
        next_seq_spec(seq) > (match seq { Some(n) => n, None => 0 }),
{
}

/// A result reported for command `id` answers that command, whatever body
/// the panel posted, and answers no other command.
pub proof fn law_result_answers_its_command(report: PanelReport, id: u64, other: u64, r: StoredResult)
    requires
        other != id,
        r.command_id == stamped_id_spec(report, Some(id)),
    ensures
        answers_spec(Some(r), id),
        !answers_spec(Some(r), other),
{
}

/// Over any sequence of polls, the served-poll stamp is the time of the
/// last served poll (or what it was before, if none was served), and the
/// stale-poll stamp the time of the last refused poll: refused polls never
/// make the bridge look connected, and served polls never touch the stale
/// stamp. So the ages `last_poll_age_ms` and `last_stale_poll_age_ms`
/// report are measured from those times.
pub proof fn law_poll_ages(stamps: (Option<u64>, Option<u64>), polls: Seq<(bool, u64)>, now_ms: u64)
    ensures
        after_polls(stamps, polls).0 == (match last_poll_time(polls, true) { Some(t) => Some(t), None => stamps.0 }),
        after_polls(stamps, polls).1 == (match last_poll_time(polls, false) { Some(t) => Some(t), None => stamps.1 }),
        age_spec(after_polls(stamps, polls).0, now_ms) == (match last_poll_time(polls, true) {
            Some(t) => Some(if now_ms >= t { (now_ms - t) as u64 } else { 0 }),
            None => age_spec(stamps.0, now_ms),
        }),
        age_spec(after_polls(stamps, polls).1, now_ms) == (match last_poll_time(polls, false) {
            Some(t) => Some(if now_ms >= t { (now_ms - t) as u64 } else { 0 }),
            None => age_spec(stamps.1, now_ms),
        }),
    decreases polls.len(),
{
    if polls.len() > 0 {
        law_poll_ages(stamps, polls.drop_last(), now_ms);
    }
}

} // verus!
