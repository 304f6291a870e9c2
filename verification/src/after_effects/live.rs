//! Live After Effects control: the panel's command names, the arguments of
//! the tools that carry no floating point, and the decisions a tool call
//! makes around queueing a command and waiting for its result.
//!
//! Every call costs at least one ~2 s poll cycle, and the panel may not be
//! there: a command queued with no panel listening is reported as a tool
//! error with the specific fix, because it stays queued and nothing happens
//! until someone opens the panel.
use vstd::prelude::*;
use crate::text::{ascii_lower, push_decimal, push_str, str_eq};
use crate::after_effects::state::{
    age_spec, command_in_flight, last_poll_age_ms, last_stale_poll_age_ms, next_seq_spec, queue_command, BridgeStore,
    CommandStatus, PanelReport,
};

verus! {

/// How long a tool call waits for the panel, in milliseconds.
pub const RESULT_WAIT_MS: u64 = 12000;

/// The wait for batches and renders, which do real work in After Effects.
pub const SLOW_RESULT_WAIT_MS: u64 = 240000;

/// A panel silent for this long (ms) is treated as gone.
pub const PANEL_SILENT_MS: u64 = 30000;

/// A panel that polled within this window (ms) counts as connected.
pub const PANEL_FRESH_MS: u64 = 10000;

/// Shown when a panel is polling but cannot be served.
pub const STALE_PANEL_HINT: &'static str = "An outdated bridge panel is polling and cannot be served commands. Run ./install-bridge.sh, then close and reopen Window > mcp-bridge-auto.jsx in After Effects.";

/// Shown when no panel has ever polled.
pub const NEVER_CONNECTED_HINT: &'static str = "The bridge panel has never connected. Run ./install-bridge.sh, then open Window > mcp-bridge-auto.jsx in After Effects.";

/// `bridge_status` hint for a panel that polls normally.
pub const CONNECTED_HINT: &'static str = "Bridge panel is polling normally.";

/// `bridge_status` hint for no panel.
pub const NOT_CONNECTED_HINT: &'static str = "Panel not connected. In After Effects: Window > mcp-bridge-auto.jsx (run ./install-bridge.sh first if it is not listed).";

/// The message `get_results` gives before any result has been stored.
pub const NO_RESULTS_MESSAGE: &'static str = "No results yet. Queue a command first, and make sure the MCP Bridge Auto panel is open in After Effects.";

/// Every command the bridge panel knows how to execute.
#[derive(Clone, Copy, Debug, PartialEq, Eq, Structural)]
pub enum PanelScript {
    GetProjectInfo,
    ListCompositions,
    GetLayerInfo,
    CreateComposition,
    CreateTextLayer,
    CreateShapeLayer,
    CreateSolidLayer,
    SetLayerProperties,
    SetLayerKeyframe,
    SetLayerExpression,
    ApplyEffect,
    ApplyEffectTemplate,
    BridgeTestEffects,
    CreateCamera,
    BatchSetLayerProperties,
    SetCompositionProperties,
    DuplicateLayer,
    DeleteLayer,
    SetLayerMask,
    RunBatch,
    AddImageLayer,
    SaveFramePng,
    SaveProject,
    DeleteComposition,
}

/// The name the panel's dispatch table switches on.
pub open spec fn command_name(s: PanelScript) -> Seq<char> {
    match s {
        PanelScript::GetProjectInfo => "getProjectInfo"@,
        PanelScript::ListCompositions => "listCompositions"@,
        PanelScript::GetLayerInfo => "getLayerInfo"@,
        PanelScript::CreateComposition => "createComposition"@,
        PanelScript::CreateTextLayer => "createTextLayer"@,
        PanelScript::CreateShapeLayer => "createShapeLayer"@,
        PanelScript::CreateSolidLayer => "createSolidLayer"@,
        PanelScript::SetLayerProperties => "setLayerProperties"@,
        PanelScript::SetLayerKeyframe => "setLayerKeyframe"@,
        PanelScript::SetLayerExpression => "setLayerExpression"@,
        PanelScript::ApplyEffect => "applyEffect"@,
        PanelScript::ApplyEffectTemplate => "applyEffectTemplate"@,
        PanelScript::BridgeTestEffects => "bridgeTestEffects"@,
        PanelScript::CreateCamera => "createCamera"@,
        PanelScript::BatchSetLayerProperties => "batchSetLayerProperties"@,
        PanelScript::SetCompositionProperties => "setCompositionProperties"@,
        PanelScript::DuplicateLayer => "duplicateLayer"@,
        PanelScript::DeleteLayer => "deleteLayer"@,
        PanelScript::SetLayerMask => "setLayerMask"@,
        PanelScript::RunBatch => "runBatch"@,
        PanelScript::AddImageLayer => "addImageLayer"@,
        PanelScript::SaveFramePng => "saveFramePng"@,
        PanelScript::SaveProject => "saveProject"@,
        PanelScript::DeleteComposition => "deleteComposition"@,
    }
}

/// Three marks that tell the command names apart: the length, the first
/// character, and the seventh character from the end.
pub open spec fn name_marks(s: PanelScript) -> (nat, char, char) {
    match s {
        PanelScript::GetProjectInfo => (14nat, 'g', 'e'),
        PanelScript::ListCompositions => (16nat, 'l', 's'),
        PanelScript::GetLayerInfo => (12nat, 'g', 'y'),
        PanelScript::CreateComposition => (17nat, 'c', 'o'),
        PanelScript::CreateTextLayer => (15nat, 'c', 'x'),
        PanelScript::CreateShapeLayer => (16nat, 'c', 'p'),
        PanelScript::CreateSolidLayer => (16nat, 'c', 'i'),
        PanelScript::SetLayerProperties => (18nat, 's', 'p'),
        PanelScript::SetLayerKeyframe => (16nat, 's', 'e'),
        PanelScript::SetLayerExpression => (18nat, 's', 'r'),
        PanelScript::ApplyEffect => (11nat, 'a', 'y'),
        PanelScript::ApplyEffectTemplate => (19nat, 'a', 'e'),
        PanelScript::BridgeTestEffects => (17nat, 'b', 'E'),
        PanelScript::CreateCamera => (12nat, 'c', 'e'),
        PanelScript::BatchSetLayerProperties => (23nat, 'b', 'p'),
        PanelScript::SetCompositionProperties => (24nat, 's', 'p'),
        PanelScript::DuplicateLayer => (14nat, 'd', 't'),
        PanelScript::DeleteLayer => (11nat, 'd', 't'),
        PanelScript::SetLayerMask => (12nat, 's', 'y'),
        PanelScript::RunBatch => (8nat, 'r', 'u'),
        PanelScript::AddImageLayer => (13nat, 'a', 'g'),
        PanelScript::SaveFramePng => (12nat, 's', 'r'),
        PanelScript::SaveProject => (11nat, 's', 'P'),
        PanelScript::DeleteComposition => (17nat, 'd', 'o'),
    }
}

proof fn lemma_name_marks(s: PanelScript)
    ensures
        command_name(s).len() == name_marks(s).0,
        command_name(s)[0] == name_marks(s).1,
        command_name(s)[command_name(s).len() - 7] == name_marks(s).2,
{
    match s {
        PanelScript::GetProjectInfo => { reveal_strlit("getProjectInfo"); },
        PanelScript::ListCompositions => { reveal_strlit("listCompositions"); },
        PanelScript::GetLayerInfo => { reveal_strlit("getLayerInfo"); },
        PanelScript::CreateComposition => { reveal_strlit("createComposition"); },
        PanelScript::CreateTextLayer => { reveal_strlit("createTextLayer"); },
        PanelScript::CreateShapeLayer => { reveal_strlit("createShapeLayer"); },
        PanelScript::CreateSolidLayer => { reveal_strlit("createSolidLayer"); },
        PanelScript::SetLayerProperties => { reveal_strlit("setLayerProperties"); },
        PanelScript::SetLayerKeyframe => { reveal_strlit("setLayerKeyframe"); },
        PanelScript::SetLayerExpression => { reveal_strlit("setLayerExpression"); },
        PanelScript::ApplyEffect => { reveal_strlit("applyEffect"); },
        PanelScript::ApplyEffectTemplate => { reveal_strlit("applyEffectTemplate"); },
        PanelScript::BridgeTestEffects => { reveal_strlit("bridgeTestEffects"); },
        PanelScript::CreateCamera => { reveal_strlit("createCamera"); },
        PanelScript::BatchSetLayerProperties => { reveal_strlit("batchSetLayerProperties"); },
        PanelScript::SetCompositionProperties => { reveal_strlit("setCompositionProperties"); },
        PanelScript::DuplicateLayer => { reveal_strlit("duplicateLayer"); },
        PanelScript::DeleteLayer => { reveal_strlit("deleteLayer"); },
        PanelScript::SetLayerMask => { reveal_strlit("setLayerMask"); },
        PanelScript::RunBatch => { reveal_strlit("runBatch"); },
        PanelScript::AddImageLayer => { reveal_strlit("addImageLayer"); },
        PanelScript::SaveFramePng => { reveal_strlit("saveFramePng"); },
        PanelScript::SaveProject => { reveal_strlit("saveProject"); },
        PanelScript::DeleteComposition => { reveal_strlit("deleteComposition"); },
    }
}

/// Distinct panel scripts have distinct command names, so a command name
/// names exactly one script.
pub proof fn law_command_names_distinct(a: PanelScript, b: PanelScript)
    ensures
        command_name(a) == command_name(b) ==> a == b,
{
    lemma_name_marks(a);
    lemma_name_marks(b);
    if command_name(a) == command_name(b) {
        assert(name_marks(a) == name_marks(b));
    }
}

/// The variant's own name, as the enum spells it.
pub open spec fn script_variant_name(s: PanelScript) -> Seq<char> {
    match s {
        PanelScript::GetProjectInfo => "GetProjectInfo"@,
        PanelScript::ListCompositions => "ListCompositions"@,
        PanelScript::GetLayerInfo => "GetLayerInfo"@,
        PanelScript::CreateComposition => "CreateComposition"@,
        PanelScript::CreateTextLayer => "CreateTextLayer"@,
        PanelScript::CreateShapeLayer => "CreateShapeLayer"@,
        PanelScript::CreateSolidLayer => "CreateSolidLayer"@,
        PanelScript::SetLayerProperties => "SetLayerProperties"@,
        PanelScript::SetLayerKeyframe => "SetLayerKeyframe"@,
        PanelScript::SetLayerExpression => "SetLayerExpression"@,
        PanelScript::ApplyEffect => "ApplyEffect"@,
        PanelScript::ApplyEffectTemplate => "ApplyEffectTemplate"@,
        PanelScript::BridgeTestEffects => "BridgeTestEffects"@,
        PanelScript::CreateCamera => "CreateCamera"@,
        PanelScript::BatchSetLayerProperties => "BatchSetLayerProperties"@,
        PanelScript::SetCompositionProperties => "SetCompositionProperties"@,
        PanelScript::DuplicateLayer => "DuplicateLayer"@,
        PanelScript::DeleteLayer => "DeleteLayer"@,
        PanelScript::SetLayerMask => "SetLayerMask"@,
        PanelScript::RunBatch => "RunBatch"@,
        PanelScript::AddImageLayer => "AddImageLayer"@,
        PanelScript::SaveFramePng => "SaveFramePng"@,
        PanelScript::SaveProject => "SaveProject"@,
        PanelScript::DeleteComposition => "DeleteComposition"@,
    }
}

/// A PascalCase name in camelCase: its first character made lowercase.
pub open spec fn camel_case(name: Seq<char>) -> Seq<char> {
    if name.len() == 0 { name } else { seq![ascii_lower(name[0])].add(name.drop_first()) }
}

/// Every panel script is dispatched under the camelCase spelling of its
/// own name: the key the panel's dispatch table switches on.
pub proof fn law_command_is_camel_case(s: PanelScript)
    ensures
        command_name(s) == camel_case(script_variant_name(s)),
{
    match s {
        PanelScript::GetProjectInfo => {
            reveal_strlit("GetProjectInfo");
            reveal_strlit("getProjectInfo");
        },
        PanelScript::ListCompositions => {
            reveal_strlit("ListCompositions");
            reveal_strlit("listCompositions");
        },
        PanelScript::GetLayerInfo => {
            reveal_strlit("GetLayerInfo");
            reveal_strlit("getLayerInfo");
        },
        PanelScript::CreateComposition => {
            reveal_strlit("CreateComposition");
            reveal_strlit("createComposition");
        },
        PanelScript::CreateTextLayer => {
            reveal_strlit("CreateTextLayer");
            reveal_strlit("createTextLayer");
        },
        PanelScript::CreateShapeLayer => {
            reveal_strlit("CreateShapeLayer");
            reveal_strlit("createShapeLayer");
        },
        PanelScript::CreateSolidLayer => {
            reveal_strlit("CreateSolidLayer");
            reveal_strlit("createSolidLayer");
        },
        PanelScript::SetLayerProperties => {
            reveal_strlit("SetLayerProperties");
            reveal_strlit("setLayerProperties");
        },
        PanelScript::SetLayerKeyframe => {
            reveal_strlit("SetLayerKeyframe");
            reveal_strlit("setLayerKeyframe");
        },
        PanelScript::SetLayerExpression => {
            reveal_strlit("SetLayerExpression");
            reveal_strlit("setLayerExpression");
        },
        PanelScript::ApplyEffect => {
            reveal_strlit("ApplyEffect");
            reveal_strlit("applyEffect");
        },
        PanelScript::ApplyEffectTemplate => {
            reveal_strlit("ApplyEffectTemplate");
            reveal_strlit("applyEffectTemplate");
        },
        PanelScript::BridgeTestEffects => {
            reveal_strlit("BridgeTestEffects");
            reveal_strlit("bridgeTestEffects");
        },
        PanelScript::CreateCamera => {
            reveal_strlit("CreateCamera");
            reveal_strlit("createCamera");
        },
        PanelScript::BatchSetLayerProperties => {
            reveal_strlit("BatchSetLayerProperties");
            reveal_strlit("batchSetLayerProperties");
        },
        PanelScript::SetCompositionProperties => {
            reveal_strlit("SetCompositionProperties");
            reveal_strlit("setCompositionProperties");
        },
        PanelScript::DuplicateLayer => {
            reveal_strlit("DuplicateLayer");
            reveal_strlit("duplicateLayer");
        },
        PanelScript::DeleteLayer => {
            reveal_strlit("DeleteLayer");
            reveal_strlit("deleteLayer");
        },
        PanelScript::SetLayerMask => {
            reveal_strlit("SetLayerMask");
            reveal_strlit("setLayerMask");
        },
        PanelScript::RunBatch => {
            reveal_strlit("RunBatch");
            reveal_strlit("runBatch");
        },
        PanelScript::AddImageLayer => {
            reveal_strlit("AddImageLayer");
            reveal_strlit("addImageLayer");
        },
        PanelScript::SaveFramePng => {
            reveal_strlit("SaveFramePng");
            reveal_strlit("saveFramePng");
        },
        PanelScript::SaveProject => {
            reveal_strlit("SaveProject");
            reveal_strlit("saveProject");
        },
        PanelScript::DeleteComposition => {
            reveal_strlit("DeleteComposition");
            reveal_strlit("deleteComposition");
        },
    }
    assert(command_name(s) =~= camel_case(script_variant_name(s)));
}

impl PanelScript {
    /// The name the panel's dispatch table switches on (the camelCase
    /// spelling of the variant).
    pub fn as_command(self) -> (out: &'static str)
        ensures
            out@ == command_name(self),
    {
        match self {
            PanelScript::GetProjectInfo => "getProjectInfo",
            PanelScript::ListCompositions => "listCompositions",
            PanelScript::GetLayerInfo => "getLayerInfo",
            PanelScript::CreateComposition => "createComposition",
            PanelScript::CreateTextLayer => "createTextLayer",
            PanelScript::CreateShapeLayer => "createShapeLayer",
            PanelScript::CreateSolidLayer => "createSolidLayer",
            PanelScript::SetLayerProperties => "setLayerProperties",
            PanelScript::SetLayerKeyframe => "setLayerKeyframe",
            PanelScript::SetLayerExpression => "setLayerExpression",
            PanelScript::ApplyEffect => "applyEffect",
            PanelScript::ApplyEffectTemplate => "applyEffectTemplate",
            PanelScript::BridgeTestEffects => "bridgeTestEffects",
            PanelScript::CreateCamera => "createCamera",
            PanelScript::BatchSetLayerProperties => "batchSetLayerProperties",
            PanelScript::SetCompositionProperties => "setCompositionProperties",
            PanelScript::DuplicateLayer => "duplicateLayer",
            PanelScript::DeleteLayer => "deleteLayer",
            PanelScript::SetLayerMask => "setLayerMask",
            PanelScript::RunBatch => "runBatch",
            PanelScript::AddImageLayer => "addImageLayer",
            PanelScript::SaveFramePng => "saveFramePng",
            PanelScript::SaveProject => "saveProject",
            PanelScript::DeleteComposition => "deleteComposition",
        }
    }
}

// ---------------------------------------------------------------------------
// Tool arguments that carry no floating point
// ---------------------------------------------------------------------------

/// RGB 0-255, the panel's composition background convention.
#[derive(Clone, Copy, Debug, PartialEq, Eq, Structural)]
pub struct Rgb255 {
    pub r: u16,
    pub g: u16,
    pub b: u16,
}

/// Arguments of `get_layer_info`.
#[derive(Debug)]
pub struct GetLayerInfoParams {
    /// Composition name. Defaults to the active composition.
    pub comp_name: Option<String>,
    /// Include transform values, effects, and text details per layer.
    pub detail: Option<bool>,
    /// Include keyframe times and values for animated properties.
    pub keyframes: Option<bool>,
    /// Restrict the listing to these 1-based layer indices.
    pub indices: Option<Vec<i64>>,
    /// Restrict the listing to these layer names.
    pub names: Option<Vec<String>>,
}

/// Arguments of `delete_composition`.
#[derive(Debug)]
pub struct DeleteCompositionParams {
    /// Name of the composition(s) to delete.
    pub comp_name: String,
}

/// Paragraph alignment of a text layer.
#[derive(Clone, Copy, Debug, PartialEq, Eq, Structural)]
pub enum TextAlignment {
    Left,
    Center,
    Right,
}

/// The shape a shape layer draws.
#[derive(Clone, Copy, Debug, PartialEq, Eq, Structural)]
pub enum ShapeType {
    Rectangle,
    Ellipse,
    Polygon,
    Star,
}

/// Arguments of `set_layer_expression`.
#[derive(Debug)]
pub struct SetLayerExpressionParams {
    /// Composition name. Preferred over `comp_index`.
    pub comp_name: Option<String>,
    /// 1-based index of the composition in the project panel.
    pub comp_index: Option<i64>,
    /// 1-based layer index within the composition.
    pub layer_index: i64,
    /// Property to target, e.g. `Position`, `Opacity`.
    pub property_name: String,
    /// The expression. An empty string removes it.
    pub expression_string: String,
}

/// Arguments of `duplicate_layer`.
#[derive(Debug)]
pub struct DuplicateLayerParams {
    /// Composition name. Defaults to the active composition.
    pub comp_name: Option<String>,
    /// 1-based layer index. Takes precedence over `layer_name`.
    pub layer_index: Option<i64>,
    /// Layer name (alternative to `layer_index`).
    pub layer_name: Option<String>,
    /// Name for the copy.
    pub new_name: Option<String>,
}

/// Arguments of `delete_layer`.
#[derive(Debug)]
pub struct DeleteLayerParams {
    /// Composition name. Defaults to the active composition.
    pub comp_name: Option<String>,
    /// 1-based layer index. Takes precedence over `layer_name`.
    pub layer_index: Option<i64>,
    /// Layer name (alternative to `layer_index`).
    pub layer_name: Option<String>,
}

/// How a mask combines with the ones above it.
#[derive(Clone, Copy, Debug, PartialEq, Eq, Structural)]
pub enum MaskMode {
    /// The mask has no effect (the panel's `none` mode).
    NoMask,
    Add,
    Subtract,
    Intersect,
    Lighten,
    Darken,
    Difference,
}

/// Arguments of `save_project`.
#[derive(Debug)]
pub struct SaveProjectParams {
    /// Absolute `.aep` path. Omit to save in place.
    pub path: Option<String>,
    /// Allow replacing an existing file (default false).
    pub overwrite: Option<bool>,
}

/// Arguments of `bridge_test_effects`.
#[derive(Clone, Copy, Debug)]
pub struct BridgeTestEffectsParams {
    /// 1-based composition index (default 1).
    pub comp_index: Option<i64>,
    /// 1-based layer index (default 1).
    pub layer_index: Option<i64>,
}

// ---------------------------------------------------------------------------
// Decisions around a queued command
// ---------------------------------------------------------------------------

/// Whether `command` is one that gets the long wait.
pub open spec fn is_slow_spec(command: Seq<char>) -> bool {
    command == "runBatch"@ || command == "saveFramePng"@ || command == "saveProject"@
}

/// How long to wait for `command`'s result: batches, frame renders and
/// project saves get [`SLOW_RESULT_WAIT_MS`], everything else
/// [`RESULT_WAIT_MS`].
pub fn result_wait_ms(command: &str) -> (out: u64)
    ensures
        out == (if is_slow_spec(command@) { SLOW_RESULT_WAIT_MS } else { RESULT_WAIT_MS }),
{
    if str_eq(command, "runBatch") || str_eq(command, "saveFramePng") || str_eq(command, "saveProject") {
        SLOW_RESULT_WAIT_MS
    } else {
        RESULT_WAIT_MS
    }
}

/// Why a queued command will not run now.
#[derive(Clone, Copy, Debug, PartialEq, Eq, Structural)]
pub enum PanelAbsence {
    /// A panel polls but cannot be served (outdated or superseded).
    StalePanel,
    /// No panel has ever polled.
    NeverConnected,
    /// The panel has been silent this many milliseconds.
    Silent { age_ms: u64 },
}

/// Whether an age is within `limit`.
pub open spec fn recent(age: Option<u64>, limit: u64) -> bool {
    age matches Some(a) && a < limit
}

/// Why a command queued now would not run, given the age of the last served
/// poll, the age of the last refused poll, and whether the panel is busy
/// with a command; `None` when the panel is reachable.
pub open spec fn absence_spec(poll_age: Option<u64>, stale_age: Option<u64>, busy: bool) -> Option<PanelAbsence> {
    let stale = recent(stale_age, PANEL_SILENT_MS);
    match poll_age {
        None => Some(if stale { PanelAbsence::StalePanel } else { PanelAbsence::NeverConnected }),
        Some(age) => if age > PANEL_SILENT_MS && !busy {
            Some(if stale { PanelAbsence::StalePanel } else { PanelAbsence::Silent { age_ms: age } })
        } else {
            None
        },
    }
}

/// Decides whether the panel can take a command. A command already in
/// flight explains a quiet panel (it cannot poll while executing), and a
/// stale panel polling explains it better than anything else.
pub fn panel_absence(poll_age: Option<u64>, stale_age: Option<u64>, busy: bool) -> (out: Option<PanelAbsence>)
    ensures
        out == absence_spec(poll_age, stale_age, busy),
{
    let stale = match stale_age {
        Some(a) => a < PANEL_SILENT_MS,
        None => false,
    };
    match poll_age {
        None => Some(if stale { PanelAbsence::StalePanel } else { PanelAbsence::NeverConnected }),
        Some(age) => {
            if age > PANEL_SILENT_MS && !busy {
                Some(if stale { PanelAbsence::StalePanel } else { PanelAbsence::Silent { age_ms: age } })
            } else {
                None
            }
        },
    }
}

/// The queue's side of a live tool call: whether the panel can take a
/// command, judged before it is queued, and the command queued regardless,
/// so that it runs as soon as a panel shows up. Returns the command's id
/// and, when the panel cannot take it now, why.
pub fn begin_command(store: &mut BridgeStore, command: &str, args_json: &str, now_ms: u64)
    -> (out: (u64, Option<PanelAbsence>))
    ensures
        out.1 == absence_spec(
            age_spec(old(store).last_poll_ms, now_ms),
            age_spec(old(store).last_stale_poll_ms, now_ms),
            old(store).command matches Some(c) && c.status == CommandStatus::Dispatched,
        ),
        out.0 == next_seq_spec(old(store).seq),
        final(store).seq == Some(out.0),
        final(store).command matches Some(c) && c.id == out.0 && c.command@ == command@
            && c.args_json@ == args_json@ && c.status == CommandStatus::Pending && c.queued_at_ms == now_ms,
        final(store).client == old(store).client,
        final(store).result == old(store).result,
        final(store).last_poll_ms == old(store).last_poll_ms,
        final(store).last_stale_poll_ms == old(store).last_stale_poll_ms,
{
    let busy = command_in_flight(store);
    let absence = panel_absence(last_poll_age_ms(store, now_ms), last_stale_poll_age_ms(store, now_ms), busy);
    let id = queue_command(store, command, args_json, now_ms);
    (id, absence)
}

/// The advice for an absent panel.
pub open spec fn absence_message_spec(a: PanelAbsence) -> Seq<char> {
    match a {
        PanelAbsence::StalePanel => STALE_PANEL_HINT@,
        PanelAbsence::NeverConnected => NEVER_CONNECTED_HINT@,
        PanelAbsence::Silent { age_ms } => "The bridge panel has not polled for "@ + crate::text::decimal(
            (age_ms / 1000) as nat,
        ) + "s. Open Window > mcp-bridge-auto.jsx in After Effects."@,
    }
}

/// The advice shown for an absent panel.
pub fn absence_message(a: PanelAbsence) -> (out: String)
    ensures
        out@ == absence_message_spec(a),
{
    let mut out = String::new();
    match a {
        PanelAbsence::StalePanel => push_str(&mut out, STALE_PANEL_HINT),
        PanelAbsence::NeverConnected => push_str(&mut out, NEVER_CONNECTED_HINT),
        PanelAbsence::Silent { age_ms } => {
            push_str(&mut out, "The bridge panel has not polled for ");
            push_decimal(&mut out, age_ms / 1000);
            push_str(&mut out, "s. Open Window > mcp-bridge-auto.jsx in After Effects.");
        },
    }
    assert(out@ =~= absence_message_spec(a));
    out
}

/// Whether a reported result counts as a failure: `status` is `"error"` or
/// `success` is `false`.
pub open spec fn failed_spec(report: PanelReport) -> bool {
    (report.status matches Some(s) && s@ == "error"@) || report.success == Some(false)
}

/// Whether the panel reported a failure.
pub fn report_failed(report: &PanelReport) -> (out: bool)
    ensures
        out == failed_spec(*report),
{
    let by_status = match &report.status {
        Some(s) => str_eq(s.as_str(), "error"),
        None => false,
    };
    by_status || match report.success {
        Some(b) => !b,
        None => false,
    }
}

/// The message for a command that outran its wait.
pub open spec fn pending_message_spec(wait_ms: u64) -> Seq<char> {
    "No result within "@ + crate::text::decimal((wait_ms / 1000) as nat)
        + "s. The panel may still be working on it."@
}

/// The message for a command that outran its wait.
pub fn pending_message(wait_ms: u64) -> (out: String)
    ensures
        out@ == pending_message_spec(wait_ms),
{
    let mut out = String::new();
    push_str(&mut out, "No result within ");
    push_decimal(&mut out, wait_ms / 1000);
    push_str(&mut out, "s. The panel may still be working on it.");
    assert(out@ =~= pending_message_spec(wait_ms));
    out
}

/// What `bridge_status` reports.
#[derive(Clone, Copy, Debug)]
pub struct BridgeStatus {
    /// A served panel polled within [`PANEL_FRESH_MS`].
    pub panel_connected: bool,
    /// No panel is connected but a refused one polled within
    /// [`PANEL_FRESH_MS`].
    pub stale_panel_polling: bool,
    pub hint: &'static str,
}

/// Whether the panel is connected and polling, and the matching hint.
pub fn bridge_status(poll_age: Option<u64>, stale_age: Option<u64>) -> (out: BridgeStatus)
    ensures
        out.panel_connected == recent(poll_age, PANEL_FRESH_MS),
        out.stale_panel_polling == (!out.panel_connected && recent(stale_age, PANEL_FRESH_MS)),
        out.hint@ == (if out.panel_connected { CONNECTED_HINT@ } else if out.stale_panel_polling {
            STALE_PANEL_HINT@
        } else {
            NOT_CONNECTED_HINT@
        }),
{
    let connected = match poll_age {
        Some(a) => a < PANEL_FRESH_MS,
        None => false,
    };
    let stale = !connected && match stale_age {
        Some(a) => a < PANEL_FRESH_MS,
        None => false,
    };
    let hint = if connected {
        CONNECTED_HINT
    } else if stale {
        STALE_PANEL_HINT
    } else {
        NOT_CONNECTED_HINT
    };
    BridgeStatus { panel_connected: connected, stale_panel_polling: stale, hint }
}

} // verus!
