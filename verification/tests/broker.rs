use copperd::bones::{
    catalog_snapshot, ActionReply, BonesDriverState, CopperControlHandle, CopperControlModule, CopperLifecycleState,
    COPPER_CONTROL_ENDPOINT,
};
use copperd::capability::{
    Capability, CapabilityPayload, CopperCapabilityModule, CopperEnvelope, COPPER_BUS_PROTOCOL_V1,
    COPPER_CAPABILITY_ENDPOINT,
};
use copperd::descriptor::Permission;
use copperd::jobs::{
    complete_job, display_request, keyboard_request, normalized_combo_json, plan_state_job, platform_gate,
    secure_store_request, stored_value, worker_unavailable, KeyboardRequest, SecureStoreRequest, StoreRequest,
};
use copperd::json::{JsonNumber, JsonValue};
use copperd::keyboard::normalize_combo;

fn json(text: &str) -> JsonValue {
    fn convert(v: serde_json::Value) -> JsonValue {
        match v {
            serde_json::Value::Null => JsonValue::Null,
            serde_json::Value::Bool(b) => JsonValue::Bool(b),
            serde_json::Value::Number(n) => {
                if let Some(u) = n.as_u64() {
                    JsonValue::Number(JsonNumber::PosInt(u))
                } else if let Some(i) = n.as_i64() {
                    JsonValue::Number(JsonNumber::NegInt(i))
                } else {
                    JsonValue::Number(JsonNumber::Other(n.to_string()))
                }
            }
            serde_json::Value::String(s) => JsonValue::Str(s),
            serde_json::Value::Array(items) => JsonValue::Array(items.into_iter().map(convert).collect()),
            serde_json::Value::Object(map) => JsonValue::Object(map.into_iter().map(|(k, v)| (k, convert(v))).collect()),
        }
    }
    convert(serde_json::from_str(text).expect("test JSON"))
}


fn member<'a>(v: &'a JsonValue, key: &str) -> Option<&'a JsonValue> {
    match v {
        JsonValue::Object(entries) => entries.iter().find(|(k, _)| k == key).map(|(_, v)| v),
        _ => None,
    }
}

fn request(request_id: &str, capability: Capability) -> CapabilityPayload {
    CapabilityPayload::Request {
        protocol: COPPER_BUS_PROTOCOL_V1.to_string(),
        request_id: request_id.to_string(),
        capability,
        operation: "get".to_string(),
        args: json("{}"),
    }
}

fn respond(module: &mut CopperCapabilityModule, sender: &str, payload: CapabilityPayload) -> CopperEnvelope {
    module.authorize(sender, 128, payload)
}

fn assert_error(reply: CopperEnvelope, expected_code: &str) {
    assert!(matches!(reply, CopperEnvelope::Error { code, .. } if code == expected_code));
}

fn policies(entries: &[(&str, &[Permission])]) -> Vec<(String, Vec<Permission>)> {
    entries.iter().map(|(id, perms)| (id.to_string(), perms.to_vec())).collect()
}

#[test]
fn declared_permission_accepts_and_queues_host_stamped_sender() {
    let mut module = CopperCapabilityModule::new(policies(&[("allowed", &[Permission::Fs])]));
    let reply = respond(&mut module, "allowed", request("request-1", Capability::Fs));
    assert!(matches!(reply, CopperEnvelope::JobAccepted { .. }));
    let job = module.pop_pending().expect("authorized job");
    assert_eq!(job.extension_id, "allowed");
    assert_eq!(job.capability, Capability::Fs);
    assert_eq!(module.accepted_count(), 1);
    assert_eq!(COPPER_CAPABILITY_ENDPOINT, "copper-capabilities");
}

#[test]
fn undeclared_unknown_and_legacy_senders_are_denied() {
    let mut module = CopperCapabilityModule::new(policies(&[("restricted", &[])]));
    assert_error(respond(&mut module, "restricted", request("request-1", Capability::Fs)), "permission-denied");
    assert_error(respond(&mut module, "spoofed-extension", request("request-2", Capability::Notify)), "unknown-sender");
    assert_error(respond(&mut module, "legacy", request("request-3", Capability::Fs)), "unknown-sender");
    assert_eq!(module.rejected_count(), 3);
    assert_eq!(module.pending_count(), 0);
}

#[test]
fn clock_and_notification_remain_permissionless_for_active_wasm_senders() {
    let mut module = CopperCapabilityModule::new(policies(&[("notifier", &[])]));
    assert!(matches!(respond(&mut module, "notifier", request("request-1", Capability::Notify)), CopperEnvelope::JobAccepted { .. }));
    assert!(matches!(respond(&mut module, "notifier", request("request-2", Capability::Clock)), CopperEnvelope::JobAccepted { .. }));
    assert_eq!(module.pop_pending().expect("notification job").capability, Capability::Notify);
    assert_eq!(module.pop_pending().expect("clock job").capability, Capability::Clock);
}

#[test]
fn windows_display_requires_its_dedicated_manifest_permission() {
    let mut module = CopperCapabilityModule::new(policies(&[
        ("display", &[Permission::WindowsDisplay]),
        ("generic-ui", &[Permission::Ui]),
    ]));
    assert!(matches!(
        respond(&mut module, "display", request("request-1", Capability::WindowsDisplay)),
        CopperEnvelope::JobAccepted { .. }
    ));
    assert_error(respond(&mut module, "generic-ui", request("request-2", Capability::WindowsDisplay)), "permission-denied");
    assert_eq!(module.pop_pending().expect("display job").capability, Capability::WindowsDisplay);
}

#[test]
fn replay_and_protocol_mismatch_fail_without_duplicate_jobs() {
    let mut module = CopperCapabilityModule::new(policies(&[("allowed", &[Permission::Store])]));
    assert!(matches!(respond(&mut module, "allowed", request("request-1", Capability::Store)), CopperEnvelope::JobAccepted { .. }));
    assert_error(respond(&mut module, "allowed", request("request-1", Capability::Store)), "replayed-request");
    let mismatch = CapabilityPayload::Request {
        protocol: "copper.bus/999".to_string(),
        request_id: "request-2".to_string(),
        capability: Capability::Store,
        operation: "get".to_string(),
        args: json("{}"),
    };
    assert_error(respond(&mut module, "allowed", mismatch), "protocol-mismatch");
    assert_eq!(module.pending_count(), 1);
}

#[test]
fn policy_refresh_drops_jobs_and_denies_permissions_removed_from_manifest() {
    let mut module = CopperCapabilityModule::new(policies(&[("mutable", &[Permission::Fs])]));
    assert!(matches!(respond(&mut module, "mutable", request("request-1", Capability::Fs)), CopperEnvelope::JobAccepted { .. }));
    module.replace_policies(policies(&[("mutable", &[])]));
    assert_eq!(module.pending_count(), 0);
    assert_error(respond(&mut module, "mutable", request("request-2", Capability::Fs)), "permission-denied");
}

#[test]
fn malformed_wrong_kind_and_oversized_payloads_are_rejected() {
    let mut module = CopperCapabilityModule::new(policies(&[("allowed", &[Permission::Fs])]));
    assert_error(module.authorize("allowed", 1, CapabilityPayload::Malformed("EOF while parsing".to_string())), "invalid-json");
    assert_error(module.authorize("allowed", 80, CapabilityPayload::OtherMessage), "invalid-message");
    assert_error(module.authorize("allowed", 64 * 1024 + 1, request("request-1", Capability::Fs)), "request-too-large");
    assert_eq!(module.rejected_count(), 3);
    assert_eq!(module.pending_count(), 0);
}

#[test]
fn one_sender_cannot_consume_the_entire_shared_queue() {
    let mut module = CopperCapabilityModule::new(policies(&[("noisy", &[Permission::Store]), ("peer", &[Permission::Store])]));
    for index in 0..32 {
        assert!(matches!(
            respond(&mut module, "noisy", request(&format!("request-{index}"), Capability::Store)),
            CopperEnvelope::JobAccepted { .. }
        ));
    }
    assert_error(respond(&mut module, "noisy", request("request-overflow", Capability::Store)), "sender-queue-full");
    assert!(matches!(respond(&mut module, "peer", request("peer-request", Capability::Store)), CopperEnvelope::JobAccepted { .. }));
    assert_eq!(module.pending_count(), 33);
}

#[test]
fn module_uses_stable_endpoint_and_lifecycle_subscription() {
    let module = CopperControlModule::new();
    assert_eq!(module.name(), COPPER_CONTROL_ENDPOINT);
    assert_eq!(COPPER_CONTROL_ENDPOINT, "copper-control");
}

#[test]
fn module_observes_lifecycle_without_bones_internals() {
    let mut module = CopperControlModule::new();
    module.handle_message(true, Some(("session-counter".to_string(), CopperLifecycleState::Loaded)));
    let handle = module.handle();
    assert_eq!(handle.lifecycle_event_count(), 1);
    let states = handle.extensions();
    assert_eq!(states, vec![("session-counter".to_string(), CopperLifecycleState::Loaded)]);
}

#[test]
fn module_counts_malformed_lifecycle_payloads_without_changing_state() {
    let mut module = CopperControlModule::new();
    module.handle_message(true, None);
    module.handle_message(false, Some(("other-topic".to_string(), CopperLifecycleState::Stopped)));
    let handle = module.handle();
    assert_eq!(handle.lifecycle_event_count(), 0);
    assert_eq!(handle.lifecycle_decode_errors(), 1);
    assert!(handle.extensions().is_empty());
}

#[test]
fn health_response_reports_observed_lifecycle_count() {
    let module = CopperControlModule::new();
    let payload = module.respond(b"health").expect("health reply");
    assert!(matches!(member(&payload, "ok"), Some(JsonValue::Bool(true))));
    assert!(matches!(member(&payload, "lifecycleEvents"), Some(JsonValue::Number(JsonNumber::PosInt(0)))));
    assert!(module.respond(b"unknown").is_none());
}

#[test]
fn lifecycle_record_keeps_the_latest_state_per_extension() {
    let mut handle = CopperControlHandle::new();
    handle.record_event("a", CopperLifecycleState::Loaded);
    handle.record_event("b", CopperLifecycleState::Faulted);
    handle.record_event("a", CopperLifecycleState::Reloaded);
    let mut states = handle.extensions();
    states.sort_by(|x, y| x.0.cmp(&y.0));
    assert_eq!(states, vec![("a".to_string(), CopperLifecycleState::Reloaded), ("b".to_string(), CopperLifecycleState::Faulted)]);
    assert_eq!(handle.lifecycle_event_count(), 3);
    let module = CopperControlModule::from_handle(handle);
    let health = module.respond(b"health").expect("health");
    let extensions = member(&health, "extensions").expect("extensions");
    assert!(matches!(member(extensions, "a"), Some(JsonValue::Str(s)) if s == "reloaded"));
}

fn driver_with(ids: &[&str]) -> BonesDriverState {
    BonesDriverState::new(ids.iter().map(|id| (id.to_string(), format!("{id}.wasm"))).collect())
}

#[test]
fn driver_is_headless_step_driven_and_shutdown_is_idempotent() {
    let mut driver = driver_with(&["alpha"]);
    let control = CopperControlHandle::new();
    assert!(driver.status(true, &control, 0, 0, 0).headless);
    assert_eq!(driver.status(true, &control, 0, 0, 0).frames, 0);
    assert!(driver.step());
    let same = vec![("alpha".to_string(), "alpha.wasm".to_string())];
    assert!(!driver.begin_catalog_replace(&same).expect("same catalog"));
    let status = driver.status(true, &control, 0, 0, 0);
    assert_eq!(status.frames, 1);
    assert_eq!(status.registry_reloads, 1);
    assert_eq!(status.catalog_rebuilds, 0);
    assert!(driver.shutdown());
    assert!(!driver.shutdown());
    assert!(!driver.step());
    let status = driver.status(true, &control, 0, 0, 0);
    assert!(status.shutdown);
    assert_eq!(status.frames, 1);
    assert!(driver.begin_catalog_replace(&same).is_err());
}

#[test]
fn driver_rebuilds_only_when_the_catalog_changes() {
    let mut driver = driver_with(&["alpha"]);
    let changed = vec![("alpha".to_string(), "moved.wasm".to_string())];
    assert!(driver.begin_catalog_replace(&changed).expect("changed catalog"));
    driver.commit_catalog(changed);
    let status = driver.status(true, &CopperControlHandle::new(), 0, 0, 0);
    assert_eq!(status.catalog_rebuilds, 1);
    assert_eq!(status.registry_reloads, 1);
    assert!(catalog_snapshot(&copperd::extension::Registry::new()).is_empty());
}

#[test]
fn driver_dispatches_versioned_actions_to_one_target_component() {
    let mut driver = driver_with(&["action-component"]);
    let request_id = driver.begin_action("action-component").expect("request id");
    assert_eq!(request_id, "action-1");
    let reply = ActionReply::Envelope(CopperEnvelope::JobAccepted {
        protocol: COPPER_BUS_PROTOCOL_V1.to_string(),
        request_id: request_id.clone(),
        job_id: "job-1".to_string(),
    });
    let dispatch = driver.finish_action("action-component", "run", request_id, reply).expect("dispatch");
    assert_eq!(dispatch.extension_id, "action-component");
    assert_eq!(dispatch.action_id, "run");
    assert!(matches!(dispatch.response, Some(CopperEnvelope::JobAccepted { .. })));
    let status = driver.status(true, &CopperControlHandle::new(), 0, 0, 0);
    assert_eq!(status.actions_dispatched, 1);
    assert_eq!(status.action_dispatch_failures, 0);
    let err = driver.begin_action("unknown").expect_err("not in catalog");
    assert_eq!(err, "extension 'unknown' is not an active Copper WASM component");
}

#[test]
fn driver_rejects_wrong_action_response_kinds() {
    let mut driver = driver_with(&["action-component"]);
    let request_id = driver.begin_action("action-component").expect("request id");
    let reply = ActionReply::Envelope(CopperEnvelope::ActionRequest {
        protocol: COPPER_BUS_PROTOCOL_V1.to_string(),
        request_id: request_id.clone(),
        action_id: "run".to_string(),
        input: json("{}"),
    });
    let error = driver.finish_action("action-component", "run", request_id, reply).expect_err("wrong response kind");
    assert!(error.contains("invalid action response kind"));
    let status = driver.status(true, &CopperControlHandle::new(), 0, 0, 0);
    assert_eq!(status.actions_dispatched, 0);
    assert_eq!(status.action_dispatch_failures, 1);
}

#[test]
fn driver_rejects_action_responses_for_another_request() {
    let mut driver = driver_with(&["action-component"]);
    let request_id = driver.begin_action("action-component").expect("request id");
    let reply = ActionReply::Envelope(CopperEnvelope::JobAccepted {
        protocol: COPPER_BUS_PROTOCOL_V1.to_string(),
        request_id: "another-request".to_string(),
        job_id: "job-1".to_string(),
    });
    let error = driver.finish_action("action-component", "run", request_id, reply).expect_err("mismatched response");
    assert!(error.contains("mismatched response request ID"));
    let status = driver.status(true, &CopperControlHandle::new(), 0, 0, 0);
    assert_eq!(status.actions_dispatched, 0);
    assert_eq!(status.action_dispatch_failures, 1);
}

#[test]
fn driver_reports_component_errors_and_empty_replies() {
    let mut driver = driver_with(&["c"]);
    let id = driver.begin_action("c").expect("id");
    let reply = ActionReply::Envelope(CopperEnvelope::Error {
        protocol: COPPER_BUS_PROTOCOL_V1.to_string(),
        request_id: Some(id.clone()),
        job_id: None,
        code: "busy".to_string(),
        message: "try later".to_string(),
    });
    assert_eq!(driver.finish_action("c", "run", id, reply).expect_err("error"), "extension rejected action [busy]: try later");
    let id = driver.begin_action("c").expect("id");
    assert_eq!(id, "action-2");
    let dispatch = driver.finish_action("c", "run", id, ActionReply::Empty).expect("empty reply");
    assert!(dispatch.response.is_none());
    driver.record_job_result(false, false);
    let status = driver.status(true, &CopperControlHandle::new(), 2, 3, 4);
    assert_eq!(status.capability_failed, 1);
    assert_eq!(status.capability_delivery_failures, 1);
    assert_eq!(status.capability_accepted, 2);
}

fn job(extension_id: &str, request_id: &str, operation: &str, args: &str) -> copperd::capability::AuthorizedCapabilityJob {
    copperd::capability::AuthorizedCapabilityJob {
        job_id: format!("job-{request_id}"),
        extension_id: extension_id.to_string(),
        request_id: request_id.to_string(),
        capability: Capability::Store,
        operation: operation.to_string(),
        args: json(args),
    }
}

#[test]
fn worker_returns_versioned_errors_for_invalid_or_unsupported_jobs() {
    let perms = vec![Permission::Store, Permission::Shell];
    let invalid = job("alpha", "request-1", "set", "{}");
    let result = plan_state_job(Some(&perms), invalid.capability, &invalid.operation, json("{}")).map(|_| JsonValue::Null);
    let completed = complete_job(invalid, result);
    assert!(!completed.succeeded);
    assert!(matches!(completed.envelope, CopperEnvelope::Error { code, job_id: Some(_), .. } if code == "invalid-args"));

    let unsupported = plan_state_job(Some(&perms), Capability::Shell, "run", json("{}"));
    assert!(matches!(unsupported, Err(f) if f.code == "unsupported-capability"));
}

#[test]
fn worker_rechecks_permission_before_executing_queued_work() {
    let revoked = plan_state_job(None, Capability::Store, "set", json(r#"{"key":"count","value":1}"#));
    assert!(matches!(revoked, Err(f) if f.code == "permission-revoked"));
    let without = plan_state_job(Some(&vec![Permission::Fs]), Capability::Store, "get", json(r#"{"key":"count"}"#));
    assert!(matches!(without, Err(f) if f.code == "permission-revoked"));
}

#[test]
fn worker_roundtrips_store_and_scopes_state_to_stamped_extension() {
    let perms = vec![Permission::Store];
    match plan_state_job(Some(&perms), Capability::Store, "set", json(r#"{"key":"count","value":9,"extensionId":"alpha"}"#)) {
        Ok(StoreRequest::SetValue { key, value }) => {
            assert_eq!(key, "count");
            assert!(matches!(value, JsonValue::Number(JsonNumber::PosInt(9))));
        }
        other => panic!("unexpected {other:?}"),
    }
    let state = json(r#"{"count": 1}"#);
    assert!(matches!(stored_value(state, "count"), JsonValue::Number(JsonNumber::PosInt(1))));
    assert!(matches!(stored_value(json("{}"), "missing"), JsonValue::Null));
    let done = complete_job(job("beta", "request-2", "get", "{}"), Ok(JsonValue::Null));
    assert!(done.succeeded);
    assert_eq!(done.extension_id, "beta");
    let gone = worker_unavailable(job("beta", "request-3", "get", "{}"));
    assert!(matches!(gone.envelope, CopperEnvelope::Error { code, .. } if code == "worker-unavailable"));
}

#[test]
fn store_jobs_check_keys_and_merge_values() {
    assert!(matches!(plan_state_job(Some(&vec![Permission::Store]), Capability::Store, "get", json(r#"{"key":""}"#)), Err(f) if f.message == "store key must be 1-256 characters without control characters"));
    let long_key = format!(r#"{{"key":"{}"}}"#, "é".repeat(129));
    assert!(matches!(plan_state_job(Some(&vec![Permission::Store]), Capability::Store, "get", json(&long_key)), Err(f) if f.code == "invalid-args"));
    assert!(matches!(plan_state_job(Some(&vec![Permission::Store]), Capability::Store, "config.merge", json(r#"{"value":[1]}"#)), Err(f) if f.message == "state merge requires an object value"));
    assert!(matches!(plan_state_job(Some(&vec![Permission::Store]), Capability::Store, "status.merge", json(r#"{"value":{"a":1}}"#)), Ok(StoreRequest::StatusMerge { .. })));
    assert!(matches!(plan_state_job(Some(&vec![Permission::Store]), Capability::Store, "drop", json("{}")), Err(f) if f.message == "unsupported store operation 'drop'"));
}

#[test]
fn keyboard_operations_preserve_normalized_result_shapes() {
    match keyboard_request("normalize-combo", &json(r#"{"combo": "shift+ctrl+a"}"#)).expect("normalize") {
        KeyboardRequest::NormalizeCombo { combo } => {
            let normalized = normalized_combo_json(normalize_combo(&combo));
            assert!(matches!(member(&normalized, "combo"), Some(JsonValue::Str(s)) if s == "ctrl+shift+a"));
            assert!(matches!(member(&normalized, "label"), Some(JsonValue::Str(s)) if s == "Ctrl + Shift + A"));
        }
        other => panic!("unexpected {other:?}"),
    }
    assert!(matches!(keyboard_request("type-text", &json(r#"{"text": "test"}"#)), Ok(KeyboardRequest::TypeText { text }) if text == "test"));
}

#[test]
fn platform_operations_reject_malformed_arguments_before_side_effects() {
    assert!(matches!(keyboard_request("send-key", &json(r#"{"key": "bad\nkey"}"#)), Err(f) if f.code == "invalid-args"));
    assert!(matches!(secure_store_request("set", &json(r#"{"service": "service", "key": "key"}"#)), Err(f) if f.code == "invalid-args"));
    assert!(matches!(display_request("set-scale", &json(r#"{"scalePercent": 50}"#)), Err(f) if f.code == "invalid-args"));
    assert!(matches!(
        display_request("set-resolution", &json(r#"{"width": 1920, "height": 1080, "refreshRate": "60"}"#)),
        Err(f) if f.code == "invalid-args" && f.message == "'refreshRate' must be an integer from 1 through 480"
    ));
    assert!(matches!(secure_store_request("unknown", &json("{}")), Err(f) if f.code == "unknown-operation"));
}

#[test]
fn windows_display_status_is_explicitly_platform_gated() {
    let off = platform_gate(display_request("status", &json("{}")), false);
    assert!(matches!(off, Err(f) if f.code == "platform-unsupported"));
    let on = platform_gate(display_request("status", &json("{}")), true);
    assert!(matches!(on, Ok((action, _)) if action == "status"));
}

#[test]
fn secure_store_jobs_name_service_and_key() {
    match secure_store_request("set", &json(r#"{"service": "s", "key": "k", "value": "classified"}"#)).expect("set") {
        SecureStoreRequest::SetSecret { service, key, value } => {
            assert_eq!((service.as_str(), key.as_str(), value.as_str()), ("s", "k", "classified"));
        }
        other => panic!("unexpected {other:?}"),
    }
    assert!(matches!(secure_store_request("get", &json(r#"{"key": "k"}"#)), Err(f) if f.message == "'service' must be a string"));
    assert!(matches!(keyboard_request("type-text", &json(r#"{"text": "a\u0000b"}"#)), Err(f) if f.message == "'text' must be at most 61440 bytes without NUL characters"));
}

#[test]
fn display_jobs_carry_their_settings() {
    let (action, config) = display_request("set-resolution", &json(r#"{"width": 2560, "height": 1440, "refreshRate": 144}"#)).expect("resolution");
    assert_eq!(action, "set-resolution");
    assert!(matches!(member(&config, "resolutionWidth"), Some(JsonValue::Number(JsonNumber::PosInt(2560)))));
    assert!(matches!(member(&config, "refreshRate"), Some(JsonValue::Number(JsonNumber::PosInt(144)))));
    let (_, auto) = display_request("set-taskbar-autohide", &json(r#"{"autoHide": true}"#)).expect("autohide");
    assert!(matches!(member(&auto, "taskbarAutoHide"), Some(JsonValue::Bool(true))));
    assert!(matches!(display_request("reboot", &json("{}")), Err(f) if f.message == "unsupported windows-display operation 'reboot'"));
}

#[test]
fn a_requeued_job_keeps_its_place_in_the_queue() {
    let mut module = CopperCapabilityModule::new(policies(&[("notifier", &[])]));
    assert!(matches!(respond(&mut module, "notifier", request("request-1", Capability::Notify)), CopperEnvelope::JobAccepted { .. }));
    assert!(matches!(respond(&mut module, "notifier", request("request-2", Capability::Clock)), CopperEnvelope::JobAccepted { .. }));
    let first = module.pop_pending().expect("first job");
    assert_eq!(module.pending_count(), 1);
    module.requeue_front(first);
    assert_eq!(module.pending_count(), 2);
    assert_eq!(module.pop_pending().expect("first again").capability, Capability::Notify);
    assert_eq!(module.pop_pending().expect("second").capability, Capability::Clock);
}

#[test]
fn driver_action_requests_carry_the_bus_protocol() {
    let mut driver = driver_with(&["action-component"]);
    let request_id = driver.begin_action("action-component").expect("request id");
    match BonesDriverState::action_request(request_id.clone(), "run", json(r#"{"source": "cli"}"#)) {
        CopperEnvelope::ActionRequest { protocol, request_id: sent, action_id, input } => {
            assert_eq!(protocol, COPPER_BUS_PROTOCOL_V1);
            assert_eq!(sent, request_id);
            assert_eq!(action_id, "run");
            match input {
                JsonValue::Object(entries) => {
                    assert_eq!(entries.len(), 1);
                    assert_eq!(entries[0].0, "source");
                    assert!(matches!(&entries[0].1, JsonValue::Str(s) if s == "cli"));
                }
                other => panic!("unexpected input {other:?}"),
            }
        }
        other => panic!("unexpected envelope {other:?}"),
    }
}

#[test]
fn a_shut_down_driver_dispatches_nothing() {
    let mut driver = driver_with(&["action-component"]);
    driver.shutdown();
    assert_eq!(
        driver.begin_action("action-component").expect_err("shut down"),
        "cannot dispatch an action after Bones shutdown"
    );
}
