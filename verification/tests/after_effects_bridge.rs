use mcp_servers::after_effects::endpoint::{
    allowed_hosts, bridge_route, panel_served, param, payload_too_large_message, poll_client, report_id,
    serve_command_poll, BridgeRoute, PollReply, HEALTH_BODY, STALE_PANEL_NOTE,
};
use mcp_servers::after_effects::kv_stub::key_path;
use mcp_servers::after_effects::live::{
    absence_message, begin_command, bridge_status, panel_absence, pending_message, report_failed, result_wait_ms, PanelAbsence,
    PanelScript, CONNECTED_HINT, NEVER_CONNECTED_HINT, NOT_CONNECTED_HINT, RESULT_WAIT_MS, SLOW_RESULT_WAIT_MS,
    STALE_PANEL_HINT,
};
use mcp_servers::after_effects::state::{
    command_in_flight, current_command, key, last_poll_age_ms, last_stale_poll_age_ms, latest_result,
    next_seq, queue_command, record_poll, register_client, result_answers, store_result, take_pending_command,
    wait_deadline, wait_step, wall_ms_of, BridgeStore, CommandStatus, PanelReport, WaitStep, POLL_INTERVAL_MS,
};

fn empty_store() -> BridgeStore {
    BridgeStore {
        seq: None,
        client: None,
        command: None,
        result: None,
        last_poll_ms: None,
        last_stale_poll_ms: None,
    }
}

fn object_report() -> PanelReport {
    PanelReport { is_object: true, own_command_id: None, status: Some("success".to_string()), success: Some(true) }
}

#[test]
fn keys_are_namespaced() {
    assert_eq!(key("after-effects-mcp", "command"), "after-effects-mcp:command");
    assert_eq!(key("other", "seq"), "other:seq");
}

#[test]
fn sequence_starts_at_one_and_saturates() {
    let mut store = empty_store();
    assert_eq!(next_seq(&mut store), 1);
    assert_eq!(next_seq(&mut store), 2);
    store.seq = Some(u64::MAX);
    assert_eq!(next_seq(&mut store), u64::MAX);
}

#[test]
fn queued_command_is_pending_and_replaces_the_old_one() {
    let mut store = empty_store();
    let first = queue_command(&mut store, "getProjectInfo", "{}", 100);
    let second = queue_command(&mut store, "createTextLayer", "{\"text\":\"hi\"}", 200);
    assert_eq!((first, second), (1, 2));
    let c = store.command.as_ref().unwrap();
    assert_eq!(c.id, 2);
    assert_eq!(c.command, "createTextLayer");
    assert_eq!(c.args_json, "{\"text\":\"hi\"}");
    assert_eq!(c.status, CommandStatus::Pending);
    assert_eq!(c.queued_at_ms, 200);
}

#[test]
fn newest_panel_wins() {
    let mut store = empty_store();
    assert!(register_client(&mut store, 5));
    assert!(register_client(&mut store, 9));
    assert!(!register_client(&mut store, 5));
    assert!(register_client(&mut store, 9));
    assert_eq!(store.client, Some(9));
}

#[test]
fn anonymous_panel_never_supersedes() {
    let mut store = empty_store();
    assert!(register_client(&mut store, 0));
    assert_eq!(store.client, None);
    assert!(register_client(&mut store, 3));
    assert!(!register_client(&mut store, 0));
    assert_eq!(store.client, Some(3));
}

#[test]
fn polls_are_stamped_by_kind() {
    let mut store = empty_store();
    record_poll(&mut store, true, 1000);
    record_poll(&mut store, false, 2000);
    assert_eq!(store.last_poll_ms, Some(1000));
    assert_eq!(store.last_stale_poll_ms, Some(2000));
    assert_eq!(last_poll_age_ms(&store, 4500), Some(3500));
    assert_eq!(last_stale_poll_age_ms(&store, 1500), Some(0));
    assert_eq!(last_poll_age_ms(&empty_store(), 10), None);
}

#[test]
fn pending_command_is_handed_out_once() {
    let mut store = empty_store();
    assert!(take_pending_command(&mut store).is_none());
    queue_command(&mut store, "saveProject", "{}", 5);
    let c = take_pending_command(&mut store).unwrap();
    assert_eq!(c.id, 1);
    assert_eq!(c.status, CommandStatus::Dispatched);
    assert!(command_in_flight(&store));
    assert!(take_pending_command(&mut store).is_none());
    assert_eq!(current_command(&store).as_ref().unwrap().status, CommandStatus::Dispatched);
}

#[test]
fn result_completes_its_command() {
    let mut store = empty_store();
    let id = queue_command(&mut store, "getProjectInfo", "{}", 5);
    take_pending_command(&mut store);
    store_result(&mut store, Some(id), object_report(), 77);
    let r = latest_result(&store).as_ref().unwrap();
    assert_eq!(r.command_id, Some(id));
    assert_eq!(r.received_at_ms, Some(77));
    assert_eq!(store.command.as_ref().unwrap().status, CommandStatus::Completed);
    assert!(result_answers(&store, id));
    assert!(!result_answers(&store, id + 1));
}

#[test]
fn result_for_another_command_leaves_the_queue() {
    let mut store = empty_store();
    let id = queue_command(&mut store, "getProjectInfo", "{}", 5);
    take_pending_command(&mut store);
    store_result(&mut store, Some(id + 10), object_report(), 77);
    assert_eq!(store.command.as_ref().unwrap().status, CommandStatus::Dispatched);
    assert!(!result_answers(&store, id));
}

#[test]
fn non_object_result_is_wrapped_and_stamped() {
    let mut store = empty_store();
    let id = queue_command(&mut store, "getProjectInfo", "{}", 5);
    let report = PanelReport { is_object: false, own_command_id: None, status: None, success: None };
    store_result(&mut store, Some(id), report, 9);
    let r = store.result.as_ref().unwrap();
    assert_eq!(r.command_id, Some(id));
    assert_eq!(r.received_at_ms, Some(9));
    assert!(r.report.is_object);
    assert!(result_answers(&store, id));
    assert_eq!(store.command.as_ref().unwrap().status, CommandStatus::Completed);
    let mut store = empty_store();
    let report = PanelReport { is_object: false, own_command_id: Some(3), status: None, success: None };
    store_result(&mut store, None, report, 9);
    assert_eq!(store.result.as_ref().unwrap().command_id, None);
}

#[test]
fn unnamed_result_keeps_its_own_id() {
    let mut store = empty_store();
    let report = PanelReport { is_object: true, own_command_id: Some(4), status: None, success: None };
    store_result(&mut store, None, report, 9);
    assert_eq!(store.result.as_ref().unwrap().command_id, Some(4));
}

#[test]
fn waiting_ends_on_answer_or_deadline() {
    let mut store = empty_store();
    let id = queue_command(&mut store, "getProjectInfo", "{}", 5);
    let deadline = wait_deadline(1000, RESULT_WAIT_MS);
    assert_eq!(deadline, 13000);
    assert_eq!(wait_deadline(u64::MAX - 1, 10), u64::MAX);
    assert_eq!(wait_step(&store, id, 1000, deadline), WaitStep::Sleep(POLL_INTERVAL_MS));
    assert_eq!(wait_step(&store, id, 13000, deadline), WaitStep::TimedOut);
    store_result(&mut store, Some(id), object_report(), 9);
    assert_eq!(wait_step(&store, id, 20000, deadline), WaitStep::Answered);
}

#[test]
fn panel_script_command_names() {
    assert_eq!(PanelScript::GetProjectInfo.as_command(), "getProjectInfo");
    assert_eq!(PanelScript::BatchSetLayerProperties.as_command(), "batchSetLayerProperties");
    assert_eq!(PanelScript::SaveFramePng.as_command(), "saveFramePng");
    assert_eq!(PanelScript::DeleteComposition.as_command(), "deleteComposition");
}

#[test]
fn slow_commands_wait_longer() {
    assert_eq!(result_wait_ms("runBatch"), SLOW_RESULT_WAIT_MS);
    assert_eq!(result_wait_ms("saveFramePng"), SLOW_RESULT_WAIT_MS);
    assert_eq!(result_wait_ms("saveProject"), SLOW_RESULT_WAIT_MS);
    assert_eq!(result_wait_ms("createTextLayer"), RESULT_WAIT_MS);
}

#[test]
fn absent_panel_reasons() {
    assert_eq!(panel_absence(None, None, false), Some(PanelAbsence::NeverConnected));
    assert_eq!(panel_absence(None, Some(500), false), Some(PanelAbsence::StalePanel));
    assert_eq!(panel_absence(Some(45_000), None, false), Some(PanelAbsence::Silent { age_ms: 45_000 }));
    assert_eq!(panel_absence(Some(45_000), Some(1), false), Some(PanelAbsence::StalePanel));
    assert_eq!(panel_absence(Some(45_000), None, true), None);
    assert_eq!(panel_absence(Some(30_000), None, false), None);
    assert_eq!(panel_absence(Some(2_000), Some(40_000), false), None);
}

#[test]
fn absence_messages() {
    assert_eq!(absence_message(PanelAbsence::StalePanel), STALE_PANEL_HINT);
    assert_eq!(absence_message(PanelAbsence::NeverConnected), NEVER_CONNECTED_HINT);
    assert_eq!(
        absence_message(PanelAbsence::Silent { age_ms: 45_999 }),
        "The bridge panel has not polled for 45s. Open Window > mcp-bridge-auto.jsx in After Effects."
    );
    assert_eq!(pending_message(RESULT_WAIT_MS), "No result within 12s. The panel may still be working on it.");
}

#[test]
fn failure_reports() {
    let mut r = object_report();
    assert!(!report_failed(&r));
    r.status = Some("error".to_string());
    assert!(report_failed(&r));
    r.status = None;
    r.success = Some(false);
    assert!(report_failed(&r));
}

#[test]
fn status_of_the_bridge() {
    let s = bridge_status(Some(500), None);
    assert!(s.panel_connected && !s.stale_panel_polling);
    assert_eq!(s.hint, CONNECTED_HINT);
    let s = bridge_status(Some(50_000), Some(100));
    assert!(!s.panel_connected && s.stale_panel_polling);
    assert_eq!(s.hint, STALE_PANEL_HINT);
    let s = bridge_status(None, None);
    assert!(!s.panel_connected && !s.stale_panel_polling);
    assert_eq!(s.hint, NOT_CONNECTED_HINT);
}

#[test]
fn routes() {
    assert_eq!(bridge_route("GET", "/bridge/command"), Some(BridgeRoute::Command));
    assert_eq!(bridge_route("POST", "/bridge/result"), Some(BridgeRoute::Result));
    assert_eq!(bridge_route("GET", "/bridge/panel.jsx"), Some(BridgeRoute::PanelScript));
    assert_eq!(bridge_route("GET", "/healthz"), Some(BridgeRoute::Health));
    assert_eq!(bridge_route("POST", "/bridge/command"), None);
    assert_eq!(bridge_route("POST", "/"), None);
    assert_eq!(HEALTH_BODY, "ok\n");
}

#[test]
fn query_parameters() {
    assert_eq!(param("v=2&client=17", "client"), Some(17));
    assert_eq!(param("v=2&client=17", "v"), Some(2));
    assert_eq!(param("client=x&client=4", "client"), None);
    assert_eq!(param("flag&id=8", "id"), Some(8));
    assert_eq!(param("id=", "id"), None);
    assert_eq!(param("", "id"), None);
    assert_eq!(poll_client(Some("client=12")), 12);
    assert_eq!(poll_client(None), 0);
    assert_eq!(report_id(Some("id=3")), Some(3));
    assert_eq!(report_id(None), None);
}

#[test]
fn only_current_v2_panels_are_served() {
    assert!(panel_served(Some("v=2&client=1"), true));
    assert!(!panel_served(Some("v=2&client=1"), false));
    assert!(!panel_served(Some("v=1"), true));
    assert!(!panel_served(None, true));
}

#[test]
fn command_poll_dispatches_to_the_current_panel() {
    let mut store = empty_store();
    queue_command(&mut store, "getProjectInfo", "{}", 1);
    match serve_command_poll(&mut store, Some("v=2&client=7"), 50) {
        PollReply::Dispatch(c) => {
            assert_eq!(c.id, 1);
            assert_eq!(c.status, CommandStatus::Dispatched);
        }
        other => panic!("unexpected {other:?}"),
    }
    assert_eq!(store.last_poll_ms, Some(50));
    assert!(matches!(serve_command_poll(&mut store, Some("v=2&client=7"), 60), PollReply::Idle));
}

#[test]
fn command_poll_refuses_old_or_superseded_panels() {
    let mut store = empty_store();
    queue_command(&mut store, "getProjectInfo", "{}", 1);
    assert!(matches!(serve_command_poll(&mut store, Some("client=7"), 50), PollReply::Refused));
    assert_eq!(store.last_stale_poll_ms, Some(50));
    assert_eq!(store.last_poll_ms, None);
    assert!(matches!(serve_command_poll(&mut store, Some("v=2&client=9"), 60), PollReply::Dispatch(_)));
    assert!(matches!(serve_command_poll(&mut store, Some("v=2&client=7"), 70), PollReply::Refused));
    assert!(STALE_PANEL_NOTE.starts_with("this panel is outdated"));
}

#[test]
fn allowed_host_lists() {
    assert!(allowed_hosts(" * ").is_empty());
    assert_eq!(allowed_hosts("a.localhost, b:8080 ,,"), vec!["a.localhost".to_string(), "b:8080".to_string()]);
    assert!(allowed_hosts(" , ").is_empty());
}

#[test]
fn oversized_request_message() {
    assert_eq!(payload_too_large_message(4194304), "Payload Too Large: request body exceeds 4194304 bytes");
}

#[test]
fn key_files_stay_in_the_directory() {
    assert_eq!(key_path("after-effects-mcp:command"), "after_effects_mcp_command.bin");
    assert_eq!(key_path("../../etc/passwd"), "______etc_passwd.bin");
    assert!(!key_path("a/b\\c").contains('/'));
}

#[test]
fn wall_clock_milliseconds() {
    assert_eq!(wall_ms_of(1_700_000_000, 123_456_789), 1_700_000_000_123);
    assert_eq!(wall_ms_of(-5, 999_999_999), 999);
    assert_eq!(wall_ms_of(i64::MAX, 0), u64::MAX);
}

#[test]
fn begin_command_judges_then_queues() {
    let mut store = empty_store();
    let (id, absence) = begin_command(&mut store, "getProjectInfo", "{}", 50_000);
    assert_eq!(id, 1);
    assert_eq!(absence, Some(PanelAbsence::NeverConnected));
    let c = store.command.as_ref().unwrap();
    assert_eq!(c.status, CommandStatus::Pending);
    assert_eq!(c.queued_at_ms, 50_000);
    record_poll(&mut store, true, 49_000);
    let (id, absence) = begin_command(&mut store, "saveProject", "{}", 50_000);
    assert_eq!(id, 2);
    assert_eq!(absence, None);
    // A dispatched command explains a quiet panel.
    take_pending_command(&mut store);
    let (_, absence) = begin_command(&mut store, "saveProject", "{}", 200_000);
    assert_eq!(absence, None);
    let (_, absence) = begin_command(&mut store, "saveProject", "{}", 200_000);
    assert_eq!(absence, Some(PanelAbsence::Silent { age_ms: 151_000 }));
}

#[test]
fn poll_stamps_over_a_sequence() {
    let mut store = empty_store();
    for (served, t) in [(false, 10u64), (false, 20), (true, 30), (false, 40), (true, 50), (false, 60)] {
        record_poll(&mut store, served, t);
    }
    assert_eq!(last_poll_age_ms(&store, 100), Some(50));
    assert_eq!(last_stale_poll_age_ms(&store, 100), Some(40));
    let mut store = empty_store();
    for t in [1u64, 2, 3] {
        record_poll(&mut store, false, t);
    }
    assert_eq!(last_poll_age_ms(&store, 100), None);
}

#[test]
fn command_names_are_distinct() {
    let all = [
        PanelScript::GetProjectInfo, PanelScript::ListCompositions, PanelScript::GetLayerInfo,
        PanelScript::CreateComposition, PanelScript::CreateTextLayer, PanelScript::CreateShapeLayer,
        PanelScript::CreateSolidLayer, PanelScript::SetLayerProperties, PanelScript::SetLayerKeyframe,
        PanelScript::SetLayerExpression, PanelScript::ApplyEffect, PanelScript::ApplyEffectTemplate,
        PanelScript::BridgeTestEffects, PanelScript::CreateCamera, PanelScript::BatchSetLayerProperties,
        PanelScript::SetCompositionProperties, PanelScript::DuplicateLayer, PanelScript::DeleteLayer,
        PanelScript::SetLayerMask, PanelScript::RunBatch, PanelScript::AddImageLayer, PanelScript::SaveFramePng,
        PanelScript::SaveProject, PanelScript::DeleteComposition,
    ];
    let names: std::collections::HashSet<&str> = all.iter().map(|s| s.as_command()).collect();
    assert_eq!(names.len(), all.len());
}

#[test]
fn oversized_bodies_are_refused() {
    assert_eq!(
        mcp_servers::after_effects::endpoint::admit_body(11, 10).as_deref(),
        Some("Payload Too Large: request body exceeds 10 bytes")
    );
    assert_eq!(mcp_servers::after_effects::endpoint::admit_body(10, 10), None);
    assert_eq!(mcp_servers::after_effects::endpoint::admit_body(0, 0), None);
}
