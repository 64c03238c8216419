use animus_provider_opencode::backend::OpenCodeProviderBackend;
use animus_provider_opencode::config::OpenCodeConfig;
use animus_provider_opencode::drain::{AgentNotification, AgentRunResponse, RunDrain, SessionEvent};
use animus_provider_opencode::errors::{map_session_error, map_session_result, BackendError, SessionError};
use animus_provider_opencode::json::JsonValue;
use animus_provider_opencode::manifest::PackageInfo;
use animus_provider_opencode::plugin::{
    harness_binary, harness_default_model, is_blank, manifest_requested, plugin_manifest,
};
use animus_provider_opencode::request::{extract_mcp_endpoint, merge_extras, AgentRequest};
use animus_provider_opencode::session_id::{clock_reading, fallback_session_id, new_v4_like, SessionIdMinter};

fn s(t: &str) -> String {
    t.to_string()
}

fn jstr(t: &str) -> JsonValue {
    JsonValue::Str(t.to_string())
}

fn obj(entries: Vec<(&str, JsonValue)>) -> JsonValue {
    JsonValue::Object(entries.into_iter().map(|(k, v)| (k.to_string(), v)).collect())
}

fn object_entries(v: &JsonValue) -> &Vec<(String, JsonValue)> {
    match v {
        JsonValue::Object(e) => e,
        other => panic!("expected an object, got {other:?}"),
    }
}

fn str_value(v: &JsonValue) -> &str {
    match v {
        JsonValue::Str(t) => t.as_str(),
        other => panic!("expected a string, got {other:?}"),
    }
}

fn request(prompt: &str) -> AgentRequest {
    AgentRequest {
        session_id: None,
        prompt: prompt.to_string(),
        cwd: b"/tmp".to_vec(),
        project_root: None,
        model: None,
        system_prompt: None,
        permission_mode: None,
        timeout_secs: None,
        env: Vec::new(),
        mcp_servers: None,
        runtime_contract: None,
        extras: Vec::new(),
    }
}

fn drain(run_session_id: Option<&str>, events: Vec<SessionEvent>) -> (AgentRunResponse, Vec<AgentNotification>) {
    let mut ids = SessionIdMinter::new();
    let mut d = RunDrain::begin(run_session_id.map(|x| x.to_string()), &mut ids);
    let mut sent = Vec::new();
    for e in events {
        if let Some(n) = d.step(e) {
            sent.push(n);
        }
    }
    (d.finish(&s("acp"), 0), sent)
}

// --- session plans -------------------------------------------------------

#[test]
fn plan_uses_default_model_and_system_prompt() {
    let backend = OpenCodeProviderBackend::new(OpenCodeConfig::for_testing("opencode"));
    let mut r = request("do it");
    r.system_prompt = Some(s("be brief"));
    r.permission_mode = Some(s("auto"));
    r.timeout_secs = Some(30);
    r.env = vec![(s("A"), s("1")), (s("B"), s("2"))];
    let plan = backend.build_session_request(&r);
    assert_eq!(plan.tool, "opencode");
    assert_eq!(plan.model, "gpt-5.2");
    assert_eq!(plan.prompt, "be brief\n\ndo it");
    assert_eq!(plan.permission_mode.as_deref(), Some("auto"));
    assert_eq!(plan.timeout_secs, Some(30));
    assert_eq!(plan.env_vars, vec![(s("A"), s("1")), (s("B"), s("2"))]);
    assert!(plan.mcp_endpoint.is_none());
    assert!(object_entries(&plan.extras).is_empty());
}

#[test]
fn plan_prefers_request_model_over_configured_default() {
    let config = OpenCodeConfig::from_env_values(None, Some(s("openai/gpt-4.1")));
    let backend = OpenCodeProviderBackend::new(config);
    let plan = backend.build_session_request(&request("p"));
    assert_eq!(plan.model, "openai/gpt-4.1");
    let mut r = request("p");
    r.model = Some(s("gpt-5"));
    assert_eq!(backend.build_session_request(&r).model, "gpt-5");
}

#[test]
fn mcp_endpoint_from_string_and_object() {
    assert_eq!(extract_mcp_endpoint(&jstr("http://a")).as_deref(), Some("http://a"));
    let with_endpoint = obj(vec![("url", jstr("http://u")), ("endpoint", jstr("http://e"))]);
    assert_eq!(extract_mcp_endpoint(&with_endpoint).as_deref(), Some("http://e"));
    let with_url = obj(vec![("url", jstr("http://u"))]);
    assert_eq!(extract_mcp_endpoint(&with_url).as_deref(), Some("http://u"));
    // An `endpoint` that is not a string hides `url`.
    let odd = obj(vec![("endpoint", JsonValue::Bool(true)), ("url", jstr("http://u"))]);
    assert_eq!(extract_mcp_endpoint(&odd), None);
    assert_eq!(extract_mcp_endpoint(&obj(vec![])), None);
    assert_eq!(extract_mcp_endpoint(&JsonValue::Null), None);
    assert_eq!(extract_mcp_endpoint(&JsonValue::Array(vec![jstr("x")])), None);
}

#[test]
fn plan_carries_mcp_endpoint() {
    let backend = OpenCodeProviderBackend::new(OpenCodeConfig::default());
    let mut r = request("p");
    r.mcp_servers = Some(obj(vec![("endpoint", jstr("http://127.0.0.1:9/mcp"))]));
    let plan = backend.build_session_request(&r);
    assert_eq!(plan.mcp_endpoint.as_deref(), Some("http://127.0.0.1:9/mcp"));
}

#[test]
fn extras_without_entries_are_the_contract_or_empty() {
    let none = merge_extras(&Vec::new(), &None);
    assert!(object_entries(&none).is_empty());
    let contract = Some(obj(vec![("phase", jstr("build"))]));
    let merged = merge_extras(&Vec::new(), &contract);
    let e = object_entries(&merged);
    assert_eq!(e.len(), 1);
    assert_eq!(e[0].0, "phase");
    assert_eq!(str_value(&e[0].1), "build");
}

#[test]
fn extras_take_the_contract_under_runtime_contract() {
    let extras = vec![(s("a"), jstr("1")), (s("runtime_contract"), jstr("old"))];
    let merged = merge_extras(&extras, &Some(jstr("new")));
    let e = object_entries(&merged);
    assert_eq!(e.len(), 2);
    assert_eq!(e[0].0, "a");
    assert_eq!(str_value(&e[0].1), "1");
    assert_eq!(e[1].0, "runtime_contract");
    assert_eq!(str_value(&e[1].1), "new");

    let added = merge_extras(&vec![(s("a"), jstr("1"))], &Some(jstr("c")));
    let e = object_entries(&added);
    assert_eq!(e.len(), 2);
    assert_eq!(e[1].0, "runtime_contract");
    assert_eq!(str_value(&e[1].1), "c");

    let kept = merge_extras(&vec![(s("runtime_contract"), jstr("mine"))], &None);
    let e = object_entries(&kept);
    assert_eq!(e.len(), 1);
    assert_eq!(str_value(&e[0].1), "mine");
}

// --- draining ---------------------------------------------------------------

#[test]
fn output_falls_back_to_deltas_without_final_text() {
    let (r, _) = drain(
        Some("sid"),
        vec![
            SessionEvent::TextDelta { text: s("ab") },
            SessionEvent::TextDelta { text: s("cd") },
        ],
    );
    assert_eq!(r.output, "abcd");
    assert_eq!(r.exit_code, 0);
}

#[test]
fn last_final_text_wins() {
    let (r, _) = drain(
        Some("sid"),
        vec![
            SessionEvent::FinalText { text: s("first") },
            SessionEvent::TextDelta { text: s("x") },
            SessionEvent::FinalText { text: s("second") },
        ],
    );
    assert_eq!(r.output, "second");
}

#[test]
fn unrecoverable_error_sets_exit_code_one() {
    let (r, sent) = drain(
        Some("sid"),
        vec![
            SessionEvent::Error { message: s("boom"), recoverable: false },
            SessionEvent::Finished { exit_code: None },
        ],
    );
    assert_eq!(r.exit_code, 1);
    assert_eq!(r.errors, vec![s("boom")]);
    assert_eq!(sent.len(), 1);
}

#[test]
fn finish_code_after_error_overrides_it() {
    let (r, _) = drain(
        Some("sid"),
        vec![
            SessionEvent::Error { message: s("boom"), recoverable: false },
            SessionEvent::Finished { exit_code: Some(3) },
        ],
    );
    assert_eq!(r.exit_code, 3);
}

#[test]
fn session_id_from_first_started_event_when_backend_assigned_none() {
    let (r, sent) = drain(
        None,
        vec![
            SessionEvent::TextDelta { text: s("x") },
            SessionEvent::Started { session_id: None },
            SessionEvent::Started { session_id: Some(s("late-1")) },
            SessionEvent::Started { session_id: Some(s("late-2")) },
        ],
    );
    assert_eq!(r.session_id, "late-1");
    // Notifications carry the fallback id minted before the first event.
    match &sent[0] {
        AgentNotification::Output { session_id, .. } => {
            assert_eq!(session_id.len(), "opencode-session-".len() + 16 + 1 + 8);
            assert!(session_id.starts_with("opencode-session-"));
            assert!(session_id.ends_with("-00000000"));
        }
        other => panic!("expected Output, got {other:?}"),
    }
}

#[test]
fn fallback_session_id_stands_when_nothing_assigns_one() {
    let (r, _) = drain(None, vec![SessionEvent::Finished { exit_code: Some(0) }]);
    assert!(r.session_id.starts_with("opencode-session-"));
}

#[test]
fn backend_assigned_id_beats_started_event() {
    let (r, _) = drain(Some("assigned"), vec![SessionEvent::Started { session_id: Some(s("other")) }]);
    assert_eq!(r.session_id, "assigned");
}

#[test]
fn artifacts_and_metadata_are_gathered_in_order() {
    let (r, sent) = drain(
        Some("sid"),
        vec![
            SessionEvent::Metadata { metadata: obj(vec![("k", jstr("v"))]) },
            SessionEvent::Artifact { artifact_id: s("art-1"), metadata: JsonValue::Number(s("42")) },
        ],
    );
    assert!(sent.is_empty());
    assert_eq!(r.metadata.len(), 2);
    let first = object_entries(&r.metadata[0]);
    assert_eq!(first[0].0, "k");
    let second = object_entries(&r.metadata[1]);
    assert_eq!(second.len(), 3);
    assert_eq!(second[0].0, "kind");
    assert_eq!(str_value(&second[0].1), "artifact");
    assert_eq!(second[1].0, "artifact_id");
    assert_eq!(str_value(&second[1].1), "art-1");
    assert_eq!(second[2].0, "metadata");
    assert!(matches!(&second[2].1, JsonValue::Number(n) if n == "42"));
}

#[test]
fn tool_call_record_keeps_server() {
    let (r, _) = drain(
        Some("sid"),
        vec![SessionEvent::ToolCall { tool_name: s("t"), arguments: JsonValue::Null, server: Some(s("srv")) }],
    );
    let e = object_entries(&r.tool_calls[0]);
    assert_eq!(e[2].0, "server");
    assert_eq!(str_value(&e[2].1), "srv");
}

// --- fallback ids ------------------------------------------------------------

#[test]
fn fallback_id_format() {
    assert_eq!(fallback_session_id(0x1234, 5), "opencode-session-0000000000001234-00000005");
    assert_eq!(fallback_session_id(u64::MAX, 0xabc), "opencode-session-ffffffffffffffff-00000abc");
    assert_eq!(
        fallback_session_id(0, 0x1_2345_6789),
        "opencode-session-0000000000000000-123456789"
    );
    assert_eq!(fallback_session_id(0, u64::MAX), "opencode-session-0000000000000000-ffffffffffffffff");
}

#[test]
fn successive_fallback_ids_differ() {
    let mut ids = SessionIdMinter::new();
    let a = new_v4_like(&mut ids);
    let b = new_v4_like(&mut ids);
    assert_ne!(a, b);
    assert!(a.ends_with("-00000000"));
    assert!(b.ends_with("-00000001"));
}

// --- errors -----------------------------------------------------------------

#[test]
fn session_errors_map_to_backend_errors() {
    let e = map_session_error(SessionError::CliNotFound(s("x")));
    assert!(matches!(&e, BackendError::Unavailable(m) if m == "opencode CLI not found: x"));
    let e = map_session_error(SessionError::ExecutionFailed(s("x")));
    assert!(matches!(&e, BackendError::RunFailed(m) if m == "opencode execution: x"));
    let e = map_session_error(SessionError::ValidationFailed(s("x")));
    assert!(matches!(&e, BackendError::Other(m) if m == "opencode validation: x"));
    let e = map_session_error(SessionError::Io(s("x")));
    assert!(matches!(&e, BackendError::RunFailed(m) if m == "opencode io: x"));
    let e = map_session_error(SessionError::Serialization(s("x")));
    assert!(matches!(&e, BackendError::Other(m) if m == "opencode serialization: x"));
    let e = map_session_error(SessionError::Other(s("x")));
    assert!(matches!(&e, BackendError::Other(m) if m == "x"));
}

// --- configuration and plugin entry point ---------------------------------

#[test]
fn config_defaults() {
    let d = OpenCodeConfig::default();
    assert_eq!(d.opencode_bin, "opencode");
    assert_eq!(d.default_model, "gpt-5.2");
    let e = OpenCodeConfig::from_env_values(None, None);
    assert_eq!(e.opencode_bin, "opencode");
    assert_eq!(e.default_model, "gpt-5.2");
    let t = OpenCodeConfig::for_testing("/usr/bin/opencode");
    assert_eq!(t.opencode_bin, "/usr/bin/opencode");
    assert_eq!(t.default_model, "gpt-5.2");
    let c = OpenCodeConfig::from_env_values(Some(s("oc")), Some(s("")));
    assert_eq!(c.opencode_bin, "oc");
    assert_eq!(c.default_model, "");
}

#[test]
fn manifest_flag_detection() {
    assert!(manifest_requested(&vec![s("bin"), s("--manifest")]));
    assert!(manifest_requested(&vec![s("bin"), s("x"), s("-m")]));
    assert!(!manifest_requested(&vec![s("--manifest")]));
    assert!(!manifest_requested(&vec![s("bin"), s("--manifests")]));
    assert!(!manifest_requested(&vec![]));
}

#[test]
fn harness_settings_skip_blank_values() {
    assert!(is_blank(&s("")));
    assert!(is_blank(&s(" \t\n\u{3000}")));
    assert!(!is_blank(&s(" a ")));
    assert_eq!(harness_binary(None), "opencode");
    assert_eq!(harness_binary(Some(s("  "))), "opencode");
    assert_eq!(harness_binary(Some(s("/opt/oc"))), "/opt/oc");
    assert_eq!(harness_default_model(None), "");
    assert_eq!(harness_default_model(Some(s("\t"))), "");
    assert_eq!(harness_default_model(Some(s(" gpt-5 "))), " gpt-5 ");
}

#[test]
fn plugin_manifest_document() {
    let package = PackageInfo { name: s("animus-provider-opencode"), version: s("0.3.0"), description: s("d") };
    let doc = plugin_manifest(&package, JsonValue::Number(s("1")));
    let e = object_entries(&doc);
    let keys: Vec<&str> = e.iter().map(|p| p.0.as_str()).collect();
    assert_eq!(
        keys,
        vec!["name", "version", "plugin_kind", "description", "protocol_version", "capabilities", "env_required"]
    );
    assert_eq!(str_value(&e[0].1), "animus-provider-opencode");
    assert_eq!(str_value(&e[2].1), "provider");
    match &e[5].1 {
        JsonValue::Array(items) => {
            let names: Vec<&str> = items.iter().map(str_value).collect();
            assert_eq!(names, vec!["agent/run", "agent/resume", "agent/cancel", "health/check"]);
        }
        other => panic!("expected an array, got {other:?}"),
    }
    match &e[6].1 {
        JsonValue::Array(items) => {
            assert_eq!(items.len(), 5);
            let openai = object_entries(&items[2]);
            assert_eq!(str_value(&openai[0].1), "OPENAI_API_KEY");
            assert_eq!(openai[2].0, "sensitive");
            assert!(matches!(openai[3].1, JsonValue::Bool(false)));
        }
        other => panic!("expected an array, got {other:?}"),
    }
}

#[test]
fn streamed_text_adds_up_to_the_output() {
    let (r, sent) = drain(
        None,
        vec![
            SessionEvent::Started { session_id: Some(s("sid")) },
            SessionEvent::TextDelta { text: s("one ") },
            SessionEvent::Thinking { text: s("hm") },
            SessionEvent::TextDelta { text: s("two") },
            SessionEvent::Finished { exit_code: Some(0) },
        ],
    );
    let mut streamed = String::new();
    let mut stream_ids = Vec::new();
    for n in &sent {
        match n {
            AgentNotification::Output { session_id, text, is_final } => {
                assert!(!is_final);
                streamed.push_str(text);
                stream_ids.push(session_id.clone());
            }
            AgentNotification::Thinking { session_id, .. } => stream_ids.push(session_id.clone()),
            other => panic!("unexpected notification {other:?}"),
        }
    }
    assert_eq!(streamed, r.output);
    assert_eq!(r.output, "one two");
    assert_eq!(r.session_id, "sid");
    // Every notification carries the stream id minted before the run started.
    assert!(stream_ids.iter().all(|id| id == &stream_ids[0]));
    assert!(stream_ids[0].starts_with("opencode-session-"));
}

#[test]
fn plan_carries_paths() {
    let backend = OpenCodeProviderBackend::new(OpenCodeConfig::default());
    let mut r = request("p");
    r.cwd = b"/work/dir".to_vec();
    r.project_root = Some(b"/work".to_vec());
    let plan = backend.build_session_request(&r);
    assert_eq!(plan.cwd, b"/work/dir".to_vec());
    assert_eq!(plan.project_root, Some(b"/work".to_vec()));
}

#[test]
fn resume_is_refused_before_any_session_call() {
    let backend = OpenCodeProviderBackend::new(OpenCodeConfig::for_testing("opencode"));
    let refused = backend.prepare_resume(&request("more"));
    assert!(matches!(refused, Err(BackendError::Other(ref m)) if m.contains("session_id")));
    let mut r = request("more");
    r.session_id = Some(s("prev-id-xyz"));
    let (id, plan) = backend.prepare_resume(&r).expect("resume should be prepared");
    assert_eq!(id, "prev-id-xyz");
    assert_eq!(plan.prompt, "more");
    assert_eq!(plan.model, "gpt-5.2");
}

#[test]
fn session_results_pass_or_map() {
    let ok: Result<u32, SessionError> = Ok(5);
    assert!(matches!(map_session_result(ok), Ok(5)));
    let failed: Result<u32, SessionError> = Err(SessionError::CliNotFound(s("oc")));
    assert!(matches!(map_session_result(failed), Err(BackendError::Unavailable(ref m)) if m == "opencode CLI not found: oc"));
}

#[test]
fn clock_reading_truncates_and_defaults_to_zero() {
    assert_eq!(clock_reading(None), 0);
    assert_eq!(clock_reading(Some(1_700_000_000_000_000_000)), 1_700_000_000_000_000_000);
    assert_eq!(clock_reading(Some((1u128 << 64) + 7)), 7);
    assert_eq!(clock_reading(Some(u128::MAX)), u64::MAX);
}

#[test]
fn events_after_finish_are_still_taken_in() {
    let (r, sent) = drain(
        Some("sid"),
        vec![
            SessionEvent::Finished { exit_code: Some(0) },
            SessionEvent::TextDelta { text: s("x") },
        ],
    );
    assert_eq!(r.output, "x");
    assert_eq!(sent.len(), 1);
    assert!(matches!(&sent[0], AgentNotification::Output { is_final: false, .. }));
}
