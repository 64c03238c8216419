use animus_provider_opencode::backend::OpenCodeProviderBackend;
use animus_provider_opencode::config::OpenCodeConfig;
use animus_provider_opencode::drain::{AgentNotification, AgentRunResponse, RunDrain, SessionEvent};
use animus_provider_opencode::errors::{map_session_error, resume_session_id, BackendError, SessionError};
use animus_provider_opencode::health::HealthStatus;
use animus_provider_opencode::json::JsonValue;
use animus_provider_opencode::manifest::{PackageInfo, SessionCapabilities};
use animus_provider_opencode::request::AgentRequest;
use animus_provider_opencode::session_id::SessionIdMinter;

fn s(t: &str) -> String {
    t.to_string()
}

fn obj(entries: Vec<(&str, JsonValue)>) -> JsonValue {
    JsonValue::Object(entries.into_iter().map(|(k, v)| (k.to_string(), v)).collect())
}

fn jstr(t: &str) -> JsonValue {
    JsonValue::Str(t.to_string())
}

fn json_eq(a: &JsonValue, b: &JsonValue) -> bool {
    match (a, b) {
        (JsonValue::Null, JsonValue::Null) => true,
        (JsonValue::Bool(x), JsonValue::Bool(y)) => x == y,
        (JsonValue::Number(x), JsonValue::Number(y)) => x == y,
        (JsonValue::Str(x), JsonValue::Str(y)) => x == y,
        (JsonValue::Array(x), JsonValue::Array(y)) => {
            x.len() == y.len() && x.iter().zip(y.iter()).all(|(p, q)| json_eq(p, q))
        }
        (JsonValue::Object(x), JsonValue::Object(y)) => {
            x.len() == y.len()
                && x.iter().zip(y.iter()).all(|(p, q)| p.0 == q.0 && json_eq(&p.1, &q.1))
        }
        _ => false,
    }
}

fn json_vec_eq(a: &[JsonValue], b: &[JsonValue]) -> bool {
    a.len() == b.len() && a.iter().zip(b.iter()).all(|(p, q)| json_eq(p, q))
}

fn run_request(session_id: Option<&str>, model: Option<&str>, prompt: &str) -> AgentRequest {
    AgentRequest {
        session_id: session_id.map(|x| x.to_string()),
        prompt: prompt.to_string(),
        cwd: b"/tmp".to_vec(),
        project_root: None,
        model: model.map(|x| x.to_string()),
        system_prompt: None,
        permission_mode: None,
        timeout_secs: None,
        env: Vec::new(),
        mcp_servers: None,
        runtime_contract: None,
        extras: Vec::new(),
    }
}

/// Drains a run whose backend assigned `run_session_id`, returning the
/// response and the notifications streamed.
fn drain(
    run_session_id: Option<&str>,
    events: Vec<SessionEvent>,
    selected_backend: &str,
) -> (AgentRunResponse, Vec<AgentNotification>) {
    let mut ids = SessionIdMinter::new();
    let mut d = RunDrain::begin(run_session_id.map(|x| x.to_string()), &mut ids);
    let mut sent = Vec::new();
    for e in events {
        if let Some(n) = d.step(e) {
            sent.push(n);
        }
    }
    (d.finish(&selected_backend.to_string(), 7), sent)
}

fn scripted_events() -> Vec<SessionEvent> {
    vec![
        SessionEvent::Started { session_id: Some(s("fake-session-1")) },
        SessionEvent::TextDelta { text: s("hello") },
        SessionEvent::TextDelta { text: s(" world") },
        SessionEvent::ToolCall {
            tool_name: s("read_file"),
            arguments: obj(vec![("path", jstr("/etc/hosts"))]),
            server: None,
        },
        SessionEvent::ToolResult { tool_name: s("read_file"), output: jstr("contents"), success: true },
        SessionEvent::Thinking { text: s("thinking out loud") },
        SessionEvent::FinalText { text: s("FINAL") },
        SessionEvent::Finished { exit_code: Some(0) },
    ]
}

#[test]
fn run_agent_via_fake_session() {
    let backend = OpenCodeProviderBackend::new(OpenCodeConfig::for_testing("opencode"));
    let plan = backend.build_session_request(&run_request(None, Some("gpt-5.2"), "ping"));
    assert_eq!(plan.tool, "opencode");
    assert_eq!(plan.model, "gpt-5.2");
    assert_eq!(plan.prompt, "ping");
    assert_eq!(plan.cwd, b"/tmp".to_vec());
    assert!(plan.project_root.is_none());
    assert!(plan.mcp_endpoint.is_none());
    assert!(plan.env_vars.is_empty());
    assert!(matches!(&plan.extras, JsonValue::Object(e) if e.is_empty()));

    let (response, _) = drain(Some("fake-session-1"), scripted_events(), "opencode-fake");
    assert_eq!(response.session_id, "fake-session-1");
    assert_eq!(response.exit_code, 0);
    assert_eq!(response.output, "FINAL");
    assert_eq!(response.tool_calls.len(), 1);
    assert_eq!(response.tool_results.len(), 1);
    assert_eq!(response.thinking, vec!["thinking out loud".to_string()]);
    assert!(response.backend.contains("opencode-fake"));
    assert_eq!(response.backend, "opencode:opencode-fake");
    assert!(json_eq(
        &response.tool_calls[0],
        &obj(vec![
            ("tool_name", jstr("read_file")),
            ("arguments", obj(vec![("path", jstr("/etc/hosts"))])),
            ("server", JsonValue::Null),
        ])
    ));
    assert!(json_eq(
        &response.tool_results[0],
        &obj(vec![
            ("tool_name", jstr("read_file")),
            ("output", jstr("contents")),
            ("success", JsonValue::Bool(true)),
        ])
    ));
    assert_eq!(response.duration_ms, 7);
}

#[test]
fn resume_agent_via_fake_session() {
    let request = run_request(Some("prev-id-xyz"), Some("gpt-5.2"), "more");
    let id = resume_session_id(&request.session_id).expect("resume should succeed");
    assert_eq!(id, "prev-id-xyz");

    let events = vec![
        SessionEvent::Started { session_id: Some(s("fake-session-1")) },
        SessionEvent::FinalText { text: s("resumed") },
        SessionEvent::Finished { exit_code: Some(0) },
    ];
    let (response, _) = drain(Some("fake-session-1"), events, "opencode-fake");
    assert_eq!(response.output, "resumed");
}

#[test]
fn resume_agent_without_session_id_errors() {
    let request = run_request(None, Some("gpt-5.2"), "x");
    let err = resume_session_id(&request.session_id).expect_err("resume without session_id should fail");
    let msg = err.message().clone();
    assert!(msg.contains("session_id"), "unexpected resume error: {msg}");
    assert!(matches!(err, BackendError::Other(_)));
}

#[test]
fn cancel_agent_propagates_errors() {
    let err = map_session_error(SessionError::ExecutionFailed(s("terminate failed")));
    let msg = err.message().clone();
    assert!(msg.contains("terminate failed") || msg.contains("opencode"));
    assert!(matches!(err, BackendError::RunFailed(_)));
}

#[test]
fn health_unhealthy_when_opencode_missing() {
    let backend = OpenCodeProviderBackend::new(OpenCodeConfig::for_testing(
        "/nonexistent/opencode-binary-xyz",
    ));
    let health = backend.health(false);
    assert_eq!(health.status, HealthStatus::Unhealthy);
    assert!(health.last_error.is_some());
    assert_eq!(
        health.last_error.unwrap(),
        "opencode binary not found on PATH: /nonexistent/opencode-binary-xyz"
    );
}

#[test]
fn health_healthy_when_opencode_on_path() {
    let backend = OpenCodeProviderBackend::new(OpenCodeConfig::for_testing("opencode"));
    let health = backend.health(true);
    assert_eq!(health.status, HealthStatus::Healthy, "last_error: {:?}", health.last_error);
    assert!(health.last_error.is_none());
}

#[test]
fn run_agent_streaming_emits_notifications_in_order() {
    let events = vec![
        SessionEvent::Started { session_id: Some(s("fake-session-1")) },
        SessionEvent::TextDelta { text: s("hel") },
        SessionEvent::TextDelta { text: s("lo") },
        SessionEvent::Thinking { text: s("ponder") },
        SessionEvent::ToolCall {
            tool_name: s("shell"),
            arguments: obj(vec![("cmd", jstr("ls"))]),
            server: Some(s("local")),
        },
        SessionEvent::ToolResult {
            tool_name: s("shell"),
            output: obj(vec![("stdout", jstr("Cargo.toml"))]),
            success: true,
        },
        SessionEvent::Error { message: s("soft fail"), recoverable: true },
        SessionEvent::FinalText { text: s("hello FINAL") },
        SessionEvent::Finished { exit_code: Some(0) },
    ];
    let (response, recorded) = drain(Some("fake-session-1"), events, "opencode-fake");

    assert_eq!(response.session_id, "fake-session-1");
    assert_eq!(response.exit_code, 0);
    assert_eq!(response.output, "hello FINAL");
    assert_eq!(response.tool_calls.len(), 1);
    assert_eq!(response.tool_results.len(), 1);
    assert_eq!(response.thinking, vec!["ponder".to_string()]);
    assert_eq!(response.errors, vec!["soft fail".to_string()]);

    assert_eq!(recorded.len(), 7, "unexpected notification order");
    assert!(matches!(recorded[0], AgentNotification::Output { .. }));
    assert!(matches!(recorded[1], AgentNotification::Output { .. }));
    assert!(matches!(recorded[2], AgentNotification::Thinking { .. }));
    assert!(matches!(recorded[3], AgentNotification::ToolCall { .. }));
    assert!(matches!(recorded[4], AgentNotification::ToolResult { .. }));
    assert!(matches!(recorded[5], AgentNotification::Error { .. }));
    assert!(matches!(recorded[6], AgentNotification::Output { .. }));

    match &recorded[0] {
        AgentNotification::Output { session_id, text, is_final } => {
            assert_eq!(session_id, "fake-session-1");
            assert_eq!(text, "hel");
            assert!(!is_final);
        }
        other => panic!("expected first emission to be Output, got {other:?}"),
    }
    match &recorded[6] {
        AgentNotification::Output { text, is_final, .. } => {
            assert_eq!(text, "hello FINAL");
            assert!(is_final, "FinalText should map to is_final=true");
        }
        other => panic!("expected last emission to be final Output, got {other:?}"),
    }
    match &recorded[3] {
        AgentNotification::ToolCall { name, arguments, server, .. } => {
            assert_eq!(name, "shell");
            assert!(json_eq(arguments, &obj(vec![("cmd", jstr("ls"))])));
            assert_eq!(server.as_deref(), Some("local"));
        }
        other => panic!("expected ToolCall, got {other:?}"),
    }
    match &recorded[4] {
        AgentNotification::ToolResult { name, output, success, .. } => {
            assert_eq!(name, "shell");
            assert!(json_eq(output, &obj(vec![("stdout", jstr("Cargo.toml"))])));
            assert!(success);
        }
        other => panic!("expected ToolResult, got {other:?}"),
    }
    match &recorded[5] {
        AgentNotification::Error { message, recoverable, .. } => {
            assert_eq!(message, "soft fail");
            assert!(*recoverable);
        }
        other => panic!("expected Error, got {other:?}"),
    }
}

#[test]
fn run_agent_and_streaming_produce_same_response() {
    fn events() -> Vec<SessionEvent> {
        vec![
            SessionEvent::Started { session_id: Some(s("fake-session-1")) },
            SessionEvent::TextDelta { text: s("a") },
            SessionEvent::TextDelta { text: s("b") },
            SessionEvent::ToolCall {
                tool_name: s("read_file"),
                arguments: obj(vec![("path", jstr("/x"))]),
                server: None,
            },
            SessionEvent::ToolResult { tool_name: s("read_file"), output: jstr("ok"), success: true },
            SessionEvent::FinalText { text: s("DONE") },
            SessionEvent::Finished { exit_code: Some(0) },
        ]
    }
    // One drain keeps its notifications, the other drops them.
    let (resp_a, sent) = drain(Some("fake-session-1"), events(), "opencode-fake");
    assert_eq!(sent.len(), 5);
    let mut ids = SessionIdMinter::new();
    let mut d = RunDrain::begin(Some(s("fake-session-1")), &mut ids);
    for e in events() {
        let _ = d.step(e);
    }
    let resp_b = d.finish(&s("opencode-fake"), 7);

    assert_eq!(resp_a.session_id, resp_b.session_id);
    assert_eq!(resp_a.exit_code, resp_b.exit_code);
    assert_eq!(resp_a.output, resp_b.output);
    assert!(json_vec_eq(&resp_a.tool_calls, &resp_b.tool_calls));
    assert!(json_vec_eq(&resp_a.tool_results, &resp_b.tool_results));
    assert_eq!(resp_a.thinking, resp_b.thinking);
    assert_eq!(resp_a.errors, resp_b.errors);
    assert_eq!(resp_a.backend, resp_b.backend);
}

#[test]
fn manifest_capabilities_sanity() {
    let backend = OpenCodeProviderBackend::new(OpenCodeConfig::for_testing("opencode"));
    let package = PackageInfo {
        name: s("animus-provider-opencode"),
        version: s("0.3.0"),
        description: s("OpenCode provider"),
    };
    let caps = SessionCapabilities { supports_resume: true, supports_terminate: true, supports_mcp: true };
    let manifest = backend.manifest(&package, &s("opencode"), &caps);
    assert_eq!(manifest.name, "animus-provider-opencode");
    assert_eq!(manifest.version, "0.3.0");
    assert_eq!(manifest.tool, "opencode");
    assert!(manifest.capabilities.streaming);
    assert!(manifest.capabilities.resume);
    assert!(manifest.capabilities.cancellation);
    assert!(manifest.capabilities.write_capable);
    assert!(manifest.capabilities.mcp);
    assert!(
        manifest.supported_models.iter().any(|m| m == "openai/gpt-5.2"),
        "expected openai/gpt-5.2 in supported_models: {:?}",
        manifest.supported_models
    );
}
