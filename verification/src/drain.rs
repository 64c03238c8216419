use vstd::prelude::*;

use crate::json::{field, lemma_obj_get_at, obj_get, entry_models_of, lemma_entry_models_ext, lemma_models_push, models_of, Json, JsonValue};
use crate::session_id::{new_v4_like, next_seq, spec_fallback_session_id, SessionIdMinter};

verus! {

// ---------------------------------------------------------------------------
// Events, notifications and responses
// ---------------------------------------------------------------------------

/// One event of a running session, as the session backend reports it.
#[derive(Debug)]
pub enum SessionEvent {
    Started { session_id: Option<String> },
    TextDelta { text: String },
    FinalText { text: String },
    ToolCall { tool_name: String, arguments: JsonValue, server: Option<String> },
    ToolResult { tool_name: String, output: JsonValue, success: bool },
    Thinking { text: String },
    Artifact { artifact_id: String, metadata: JsonValue },
    Metadata { metadata: JsonValue },
    Error { message: String, recoverable: bool },
    Finished { exit_code: Option<i32> },
}

/// Model of a session event.
pub enum Event {
    Started { session_id: Option<Seq<char>> },
    TextDelta { text: Seq<char> },
    FinalText { text: Seq<char> },
    ToolCall { tool_name: Seq<char>, arguments: Json, server: Option<Seq<char>> },
    ToolResult { tool_name: Seq<char>, output: Json, success: bool },
    Thinking { text: Seq<char> },
    Artifact { artifact_id: Seq<char>, metadata: Json },
    Metadata { metadata: Json },
    Error { message: Seq<char>, recoverable: bool },
    Finished { exit_code: Option<i32> },
}

pub open spec fn opt_str(o: Option<String>) -> Option<Seq<char>> {
    match o {
        Some(s) => Some(s@),
        None => None,
    }
}

pub open spec fn strs(s: Seq<String>) -> Seq<Seq<char>> {
    s.map_values(|x: String| x@)
}

impl View for SessionEvent {
    type V = Event;

    open spec fn view(&self) -> Event {
        match *self {
            SessionEvent::Started { session_id } => Event::Started { session_id: opt_str(session_id) },
            SessionEvent::TextDelta { text } => Event::TextDelta { text: text@ },
            SessionEvent::FinalText { text } => Event::FinalText { text: text@ },
            SessionEvent::ToolCall { tool_name, arguments, server } => Event::ToolCall {
                tool_name: tool_name@,
                arguments: arguments@,
                server: opt_str(server),
            },
            SessionEvent::ToolResult { tool_name, output, success } => Event::ToolResult {
                tool_name: tool_name@,
                output: output@,
                success,
            },
            SessionEvent::Thinking { text } => Event::Thinking { text: text@ },
            SessionEvent::Artifact { artifact_id, metadata } => Event::Artifact {
                artifact_id: artifact_id@,
                metadata: metadata@,
            },
            SessionEvent::Metadata { metadata } => Event::Metadata { metadata: metadata@ },
            SessionEvent::Error { message, recoverable } => Event::Error {
                message: message@,
                recoverable,
            },
            SessionEvent::Finished { exit_code } => Event::Finished { exit_code },
        }
    }
}

/// A notification streamed to the host while a run is drained.
#[derive(Debug)]
pub enum AgentNotification {
    Output { session_id: String, text: String, is_final: bool },
    ToolCall { session_id: String, name: String, arguments: JsonValue, server: Option<String> },
    ToolResult { session_id: String, name: String, output: JsonValue, success: bool },
    Thinking { session_id: String, text: String },
    Error { session_id: String, message: String, recoverable: bool },
}

/// Model of a notification.
pub enum Notice {
    Output { session_id: Seq<char>, text: Seq<char>, is_final: bool },
    ToolCall { session_id: Seq<char>, name: Seq<char>, arguments: Json, server: Option<Seq<char>> },
    ToolResult { session_id: Seq<char>, name: Seq<char>, output: Json, success: bool },
    Thinking { session_id: Seq<char>, text: Seq<char> },
    Error { session_id: Seq<char>, message: Seq<char>, recoverable: bool },
}

impl View for AgentNotification {
    type V = Notice;

    open spec fn view(&self) -> Notice {
        match *self {
            AgentNotification::Output { session_id, text, is_final } => Notice::Output {
                session_id: session_id@,
                text: text@,
                is_final,
            },
            AgentNotification::ToolCall { session_id, name, arguments, server } => Notice::ToolCall {
                session_id: session_id@,
                name: name@,
                arguments: arguments@,
                server: opt_str(server),
            },
            AgentNotification::ToolResult { session_id, name, output, success } => Notice::ToolResult {
                session_id: session_id@,
                name: name@,
                output: output@,
                success,
            },
            AgentNotification::Thinking { session_id, text } => Notice::Thinking {
                session_id: session_id@,
                text: text@,
            },
            AgentNotification::Error { session_id, message, recoverable } => Notice::Error {
                session_id: session_id@,
                message: message@,
                recoverable,
            },
        }
    }
}

pub open spec fn opt_notice(n: Option<AgentNotification>) -> Option<Notice> {
    match n {
        Some(x) => Some(x@),
        None => None,
    }
}

/// The session id that a notification carries.
pub open spec fn notice_session(n: Notice) -> Seq<char> {
    match n {
        Notice::Output { session_id, .. } => session_id,
        Notice::ToolCall { session_id, .. } => session_id,
        Notice::ToolResult { session_id, .. } => session_id,
        Notice::Thinking { session_id, .. } => session_id,
        Notice::Error { session_id, .. } => session_id,
    }
}

/// The response of a drained run.
#[derive(Debug)]
pub struct AgentRunResponse {
    pub session_id: String,
    pub exit_code: i32,
    pub output: String,
    pub metadata: Vec<JsonValue>,
    pub tool_calls: Vec<JsonValue>,
    pub tool_results: Vec<JsonValue>,
    pub thinking: Vec<String>,
    pub errors: Vec<String>,
    pub duration_ms: u64,
    pub backend: String,
}

// ---------------------------------------------------------------------------
// The draining state machine, in the model
// ---------------------------------------------------------------------------

/// Model of the state of a run being drained.
pub struct DrainModel {
    pub output_buf: Seq<char>,
    pub final_text: Option<Seq<char>>,
    pub metadata: Seq<Json>,
    pub tool_calls: Seq<Json>,
    pub tool_results: Seq<Json>,
    pub thinking: Seq<Seq<char>>,
    pub errors: Seq<Seq<char>>,
    pub exit_code: i32,
    pub runtime_session_id: Option<Seq<char>>,
    pub stream_session_id: Seq<char>,
}

/// The state before the first event: nothing gathered, exit code zero.
pub open spec fn initial_drain(runtime_session_id: Option<Seq<char>>, stream_session_id: Seq<char>) -> DrainModel {
    DrainModel {
        output_buf: Seq::empty(),
        final_text: None,
        metadata: Seq::empty(),
        tool_calls: Seq::empty(),
        tool_results: Seq::empty(),
        thinking: Seq::empty(),
        errors: Seq::empty(),
        exit_code: 0,
        runtime_session_id,
        stream_session_id,
    }
}

/// JSON `null` for `None`, the string otherwise.
pub open spec fn opt_str_json(o: Option<Seq<char>>) -> Json {
    match o {
        Some(s) => Json::Str(s),
        None => Json::Null,
    }
}

/// The record kept of a tool call.
pub open spec fn tool_call_record(name: Seq<char>, arguments: Json, server: Option<Seq<char>>) -> Json {
    Json::Object(
        seq![
            ("tool_name"@, Json::Str(name)),
            ("arguments"@, arguments),
            ("server"@, opt_str_json(server)),
        ],
    )
}

/// The record kept of a tool result.
pub open spec fn tool_result_record(name: Seq<char>, output: Json, success: bool) -> Json {
    Json::Object(
        seq![
            ("tool_name"@, Json::Str(name)),
            ("output"@, output),
            ("success"@, Json::Bool(success)),
        ],
    )
}

/// The metadata record kept of an artifact.
pub open spec fn artifact_record(artifact_id: Seq<char>, metadata: Json) -> Json {
    Json::Object(
        seq![
            ("kind"@, Json::Str("artifact"@)),
            ("artifact_id"@, Json::Str(artifact_id)),
            ("metadata"@, metadata),
        ],
    )
}

/// The state after one more event.
pub open spec fn apply_event(d: DrainModel, e: Event) -> DrainModel {
    match e {
        Event::Started { session_id } => if d.runtime_session_id is None {
            DrainModel { runtime_session_id: session_id, ..d }
        } else {
            d
        },
        Event::TextDelta { text } => DrainModel { output_buf: d.output_buf + text, ..d },
        Event::FinalText { text } => DrainModel { final_text: Some(text), ..d },
        Event::ToolCall { tool_name, arguments, server } => DrainModel {
            tool_calls: d.tool_calls.push(tool_call_record(tool_name, arguments, server)),
            ..d
        },
        Event::ToolResult { tool_name, output, success } => DrainModel {
            tool_results: d.tool_results.push(tool_result_record(tool_name, output, success)),
            ..d
        },
        Event::Thinking { text } => DrainModel { thinking: d.thinking.push(text), ..d },
        Event::Artifact { artifact_id, metadata } => DrainModel {
            metadata: d.metadata.push(artifact_record(artifact_id, metadata)),
            ..d
        },
        Event::Metadata { metadata } => DrainModel { metadata: d.metadata.push(metadata), ..d },
        Event::Error { message, recoverable } => DrainModel {
            errors: d.errors.push(message),
            exit_code: if recoverable { d.exit_code } else { 1 },
            ..d
        },
        Event::Finished { exit_code } => match exit_code {
            Some(c) => DrainModel { exit_code: c, ..d },
            None => d,
        },
    }
}

/// The notification that an event is streamed as, under the stream's session
/// id; start, artifact, metadata and finish events are not streamed.
pub open spec fn notify(stream_session_id: Seq<char>, e: Event) -> Option<Notice> {
    match e {
        Event::TextDelta { text } => Some(
            Notice::Output { session_id: stream_session_id, text, is_final: false },
        ),
        Event::FinalText { text } => Some(
            Notice::Output { session_id: stream_session_id, text, is_final: true },
        ),
        Event::ToolCall { tool_name, arguments, server } => Some(
            Notice::ToolCall { session_id: stream_session_id, name: tool_name, arguments, server },
        ),
        Event::ToolResult { tool_name, output, success } => Some(
            Notice::ToolResult { session_id: stream_session_id, name: tool_name, output, success },
        ),
        Event::Thinking { text } => Some(Notice::Thinking { session_id: stream_session_id, text }),
        Event::Error { message, recoverable } => Some(
            Notice::Error { session_id: stream_session_id, message, recoverable },
        ),
        _ => None,
    }
}

/// The state after a whole sequence of events.
pub open spec fn drain_events(d: DrainModel, es: Seq<Event>) -> DrainModel
    decreases es.len(),
{
    if es.len() == 0 {
        d
    } else {
        apply_event(drain_events(d, es.drop_last()), es.last())
    }
}

/// The notifications streamed for a sequence of events, in order.
pub open spec fn notices_of(stream_session_id: Seq<char>, es: Seq<Event>) -> Seq<Notice> {
    es.filter_map(|e: Event| notify(stream_session_id, e))
}

/// The session id of a drained run's response.
pub open spec fn response_session_id(d: DrainModel) -> Seq<char> {
    match d.runtime_session_id {
        Some(s) => s,
        None => d.stream_session_id,
    }
}

/// The output of a drained run's response: the final text if one came,
/// otherwise all text deltas.
pub open spec fn response_output(d: DrainModel) -> Seq<char> {
    match d.final_text {
        Some(t) => t,
        None => d.output_buf,
    }
}

/// The label of the backend that ran a session.
pub open spec fn backend_label(selected_backend: Seq<char>) -> Seq<char> {
    "opencode:"@ + selected_backend
}

/// `r` is the response of the drained state `d`.
pub open spec fn response_matches(
    r: AgentRunResponse,
    d: DrainModel,
    selected_backend: Seq<char>,
    duration_ms: u64,
) -> bool {
    &&& r.session_id@ == response_session_id(d)
    &&& r.exit_code == d.exit_code
    &&& r.output@ == response_output(d)
    &&& models_of(r.metadata@) == d.metadata
    &&& models_of(r.tool_calls@) == d.tool_calls
    &&& models_of(r.tool_results@) == d.tool_results
    &&& strs(r.thinking@) == d.thinking
    &&& strs(r.errors@) == d.errors
    &&& r.duration_ms == duration_ms
    &&& r.backend@ == backend_label(selected_backend)
}

// ---------------------------------------------------------------------------
// The draining state machine
// ---------------------------------------------------------------------------

/// The state of a run being drained: what has been gathered so far from its
/// events, and the session id under which notifications are streamed.
pub struct RunDrain {
    output_buf: String,
    final_text: Option<String>,
    metadata: Vec<JsonValue>,
    tool_calls: Vec<JsonValue>,
    tool_results: Vec<JsonValue>,
    thinking: Vec<String>,
    errors: Vec<String>,
    exit_code: i32,
    runtime_session_id: Option<String>,
    stream_session_id: String,
}

impl View for RunDrain {
    type V = DrainModel;

    closed spec fn view(&self) -> DrainModel {
        DrainModel {
            output_buf: self.output_buf@,
            final_text: opt_str(self.final_text),
            metadata: models_of(self.metadata@),
            tool_calls: models_of(self.tool_calls@),
            tool_results: models_of(self.tool_results@),
            thinking: strs(self.thinking@),
            errors: strs(self.errors@),
            exit_code: self.exit_code,
            runtime_session_id: opt_str(self.runtime_session_id),
            stream_session_id: self.stream_session_id@,
        }
    }
}

proof fn lemma_strs_push(s: Seq<String>, x: String)
    ensures
        strs(s.push(x)) == strs(s).push(x@),
{
    assert(strs(s.push(x)) =~= strs(s).push(x@));
}

fn opt_string_json(o: Option<String>) -> (r: JsonValue)
    ensures
        r@ == opt_str_json(opt_str(o)),
{
    match o {
        Some(s) => JsonValue::Str(s),
        None => JsonValue::Null,
    }
}

/// An object of three entries.
fn object3(k0: String, v0: JsonValue, k1: String, v1: JsonValue, k2: String, v2: JsonValue) -> (r:
    JsonValue)
    ensures
        r@ == Json::Object(seq![(k0@, v0@), (k1@, v1@), (k2@, v2@)]),
{
    let ghost m = seq![(k0@, v0@), (k1@, v1@), (k2@, v2@)];
    let mut entries: Vec<(String, JsonValue)> = Vec::new();
    entries.push((k0, v0));
    entries.push((k1, v1));
    entries.push((k2, v2));
    proof {
        lemma_entry_models_ext(entries@, m);
    }
    JsonValue::Object(entries)
}

impl RunDrain {
    /// The state before the first event of a run. The stream's session id is
    /// the run's own where the backend assigned one, otherwise a fresh
    /// fallback id from `ids`.
    pub fn begin(run_session_id: Option<String>, ids: &mut SessionIdMinter) -> (r: RunDrain)
        ensures
            r@ == initial_drain(opt_str(run_session_id), r@.stream_session_id),
            match run_session_id {
                Some(s) => r@.stream_session_id == s@ && final(ids).next() == old(ids).next(),
                None => final(ids).next() == next_seq(old(ids).next()) && exists|now: u64|
                    r@.stream_session_id == #[trigger] spec_fallback_session_id(
                        now,
                        old(ids).next(),
                    ),
            },
    {
        let stream_session_id = match &run_session_id {
            Some(s) => s.clone(),
            None => new_v4_like(ids),
        };
        let r = RunDrain {
            output_buf: String::new(),
            final_text: None,
            metadata: Vec::new(),
            tool_calls: Vec::new(),
            tool_results: Vec::new(),
            thinking: Vec::new(),
            errors: Vec::new(),
            exit_code: 0,
            runtime_session_id: run_session_id,
            stream_session_id,
        };
        proof {
            assert(models_of(r.metadata@) =~= Seq::<Json>::empty());
            assert(strs(r.thinking@) =~= Seq::<Seq<char>>::empty());
            assert(strs(r.errors@) =~= Seq::<Seq<char>>::empty());
            assert(r@ =~= initial_drain(opt_str(run_session_id), r@.stream_session_id));
        }
        r
    }

    /// Takes in one event: gathers what it carries, and returns the
    /// notification to stream for it, if any.
    pub fn step(&mut self, event: SessionEvent) -> (n: Option<AgentNotification>)
        ensures
            final(self)@ == apply_event(old(self)@, event@),
            opt_notice(n) == notify(old(self)@.stream_session_id, event@),
    {
        let ghost e = event@;
        match event {
            SessionEvent::Started { session_id } => {
                if self.runtime_session_id.is_none() {
                    self.runtime_session_id = session_id;
                }
                None
            },
            SessionEvent::TextDelta { text } => {
                let n = AgentNotification::Output {
                    session_id: self.stream_session_id.clone(),
                    text: text.clone(),
                    is_final: false,
                };
                self.output_buf.append(text.as_str());
                Some(n)
            },
            SessionEvent::FinalText { text } => {
                let n = AgentNotification::Output {
                    session_id: self.stream_session_id.clone(),
                    text: text.clone(),
                    is_final: true,
                };
                self.final_text = Some(text);
                Some(n)
            },
            SessionEvent::ToolCall { tool_name, arguments, server } => {
                let n = AgentNotification::ToolCall {
                    session_id: self.stream_session_id.clone(),
                    name: tool_name.clone(),
                    arguments: arguments.deep_clone(),
                    server: server.clone(),
                };
                let record = object3(
                    "tool_name".to_string(),
                    JsonValue::Str(tool_name),
                    "arguments".to_string(),
                    arguments,
                    "server".to_string(),
                    opt_string_json(server),
                );
                proof {
                    lemma_models_push(self.tool_calls@, record);
                }
                self.tool_calls.push(record);
                Some(n)
            },
            SessionEvent::ToolResult { tool_name, output, success } => {
                let n = AgentNotification::ToolResult {
                    session_id: self.stream_session_id.clone(),
                    name: tool_name.clone(),
                    output: output.deep_clone(),
                    success,
                };
                let record = object3(
                    "tool_name".to_string(),
                    JsonValue::Str(tool_name),
                    "output".to_string(),
                    output,
                    "success".to_string(),
                    JsonValue::Bool(success),
                );
                proof {
                    lemma_models_push(self.tool_results@, record);
                }
                self.tool_results.push(record);
                Some(n)
            },
            SessionEvent::Thinking { text } => {
                let n = AgentNotification::Thinking {
                    session_id: self.stream_session_id.clone(),
                    text: text.clone(),
                };
                proof {
                    lemma_strs_push(self.thinking@, text);
                }
                self.thinking.push(text);
                Some(n)
            },
            SessionEvent::Artifact { artifact_id, metadata } => {
                let record = object3(
                    "kind".to_string(),
                    JsonValue::Str("artifact".to_string()),
                    "artifact_id".to_string(),
                    JsonValue::Str(artifact_id),
                    "metadata".to_string(),
                    metadata,
                );
                proof {
                    lemma_models_push(self.metadata@, record);
                }
                self.metadata.push(record);
                None
            },
            SessionEvent::Metadata { metadata } => {
                proof {
                    lemma_models_push(self.metadata@, metadata);
                }
                self.metadata.push(metadata);
                None
            },
            SessionEvent::Error { message, recoverable } => {
                let n = AgentNotification::Error {
                    session_id: self.stream_session_id.clone(),
                    message: message.clone(),
                    recoverable,
                };
                proof {
                    lemma_strs_push(self.errors@, message);
                }
                self.errors.push(message);
                if !recoverable {
                    self.exit_code = 1;
                }
                Some(n)
            },
            SessionEvent::Finished { exit_code } => {
                if let Some(c) = exit_code {
                    self.exit_code = c;
                }
                None
            },
        }
    }

    /// The response of the drained run: the final text if one came, else the
    /// gathered text deltas; the run's session id if one was known, else the
    /// stream's; the backend label `opencode:` followed by the selected backend.
    pub fn finish(self, selected_backend: &String, duration_ms: u64) -> (r: AgentRunResponse)
        ensures
            response_matches(r, self@, selected_backend@, duration_ms),
    {
        let output = match self.final_text {
            Some(t) => t,
            None => self.output_buf,
        };
        let session_id = match self.runtime_session_id {
            Some(s) => s,
            None => self.stream_session_id,
        };
        let mut backend = "opencode:".to_string();
        backend.append(selected_backend.as_str());
        AgentRunResponse {
            session_id,
            exit_code: self.exit_code,
            output,
            metadata: self.metadata,
            tool_calls: self.tool_calls,
            tool_results: self.tool_results,
            thinking: self.thinking,
            errors: self.errors,
            duration_ms,
            backend,
        }
    }
}

// ---------------------------------------------------------------------------
// Laws of draining a run
// ---------------------------------------------------------------------------

/// The text of a final-text event.
pub open spec fn final_text_of(e: Event) -> Option<Seq<char>> {
    match e {
        Event::FinalText { text } => Some(text),
        _ => None,
    }
}

/// The text of a text-delta event; empty for any other event.
pub open spec fn delta_text(e: Event) -> Seq<char> {
    match e {
        Event::TextDelta { text } => text,
        _ => Seq::empty(),
    }
}

/// The text of the last final-text event, if there is one.
pub open spec fn last_final_text(es: Seq<Event>) -> Option<Seq<char>>
    decreases es.len(),
{
    if es.len() == 0 {
        None
    } else {
        match final_text_of(es.last()) {
            Some(t) => Some(t),
            None => last_final_text(es.drop_last()),
        }
    }
}

/// The texts of all text-delta events, joined in order.
pub open spec fn all_deltas(es: Seq<Event>) -> Seq<char>
    decreases es.len(),
{
    if es.len() == 0 {
        Seq::empty()
    } else {
        all_deltas(es.drop_last()) + delta_text(es.last())
    }
}

/// The exit code that an event sets: a finish event's code where it carries
/// one, 1 for an unrecoverable error.
pub open spec fn exit_of(e: Event) -> Option<i32> {
    match e {
        Event::Finished { exit_code } => exit_code,
        Event::Error { recoverable, .. } => if recoverable { None } else { Some(1) },
        _ => None,
    }
}

/// The exit code set by the last event that sets one.
pub open spec fn last_exit(es: Seq<Event>) -> Option<i32>
    decreases es.len(),
{
    if es.len() == 0 {
        None
    } else {
        match exit_of(es.last()) {
            Some(c) => Some(c),
            None => last_exit(es.drop_last()),
        }
    }
}

/// The session id that a start event carries.
pub open spec fn started_id(e: Event) -> Option<Seq<char>> {
    match e {
        Event::Started { session_id } => session_id,
        _ => None,
    }
}

/// The session id of the first start event that carries one.
pub open spec fn first_started_id(es: Seq<Event>) -> Option<Seq<char>>
    decreases es.len(),
{
    if es.len() == 0 {
        None
    } else {
        match first_started_id(es.drop_last()) {
            Some(s) => Some(s),
            None => started_id(es.last()),
        }
    }
}

pub open spec fn thinking_of(e: Event) -> Option<Seq<char>> {
    match e {
        Event::Thinking { text } => Some(text),
        _ => None,
    }
}

pub open spec fn error_of(e: Event) -> Option<Seq<char>> {
    match e {
        Event::Error { message, .. } => Some(message),
        _ => None,
    }
}

pub open spec fn tool_call_of(e: Event) -> Option<Json> {
    match e {
        Event::ToolCall { tool_name, arguments, server } => Some(
            tool_call_record(tool_name, arguments, server),
        ),
        _ => None,
    }
}

pub open spec fn tool_result_of(e: Event) -> Option<Json> {
    match e {
        Event::ToolResult { tool_name, output, success } => Some(
            tool_result_record(tool_name, output, success),
        ),
        _ => None,
    }
}

pub open spec fn metadata_of(e: Event) -> Option<Json> {
    match e {
        Event::Artifact { artifact_id, metadata } => Some(artifact_record(artifact_id, metadata)),
        Event::Metadata { metadata } => Some(metadata),
        _ => None,
    }
}

/// The texts of the non-final output notifications, joined in order.
pub open spec fn streamed_text(ns: Seq<Notice>) -> Seq<char>
    decreases ns.len(),
{
    if ns.len() == 0 {
        Seq::empty()
    } else {
        streamed_text(ns.drop_last()) + match ns.last() {
            Notice::Output { text, is_final, .. } => if is_final { Seq::empty() } else { text },
            _ => Seq::empty(),
        }
    }
}

/// The text of the last final output notification, if there is one.
pub open spec fn last_final_notice(ns: Seq<Notice>) -> Option<Seq<char>>
    decreases ns.len(),
{
    if ns.len() == 0 {
        None
    } else {
        match ns.last() {
            Notice::Output { text, is_final, .. } => if is_final {
                Some(text)
            } else {
                last_final_notice(ns.drop_last())
            },
            _ => last_final_notice(ns.drop_last()),
        }
    }
}

proof fn lemma_filter_map_push<A, B>(s: Seq<A>, x: A, f: spec_fn(A) -> Option<B>)
    ensures
        s.push(x).filter_map(f) == match f(x) {
            Some(y) => s.filter_map(f).push(y),
            None => s.filter_map(f),
        },
{
    assert(s.push(x).drop_last() =~= s);
    assert(s.push(x).last() == x);
    match f(x) {
        Some(y) => {
            assert(s.filter_map(f) + seq![y] =~= s.filter_map(f).push(y));
        },
        None => {},
    }
}

/// The output of a drained run is the text of its last final-text event,
/// or, where none came, the texts of all its text deltas in order.
pub proof fn law_run_output(rid: Option<Seq<char>>, stream: Seq<char>, es: Seq<Event>)
    ensures
        drain_events(initial_drain(rid, stream), es).final_text == last_final_text(es),
        drain_events(initial_drain(rid, stream), es).output_buf == all_deltas(es),
        response_output(drain_events(initial_drain(rid, stream), es)) == match last_final_text(es) {
            Some(t) => t,
            None => all_deltas(es),
        },
    decreases es.len(),
{
    if es.len() > 0 {
        law_run_output(rid, stream, es.drop_last());
    } else {
        assert(Seq::<char>::empty() + Seq::<char>::empty() =~= Seq::<char>::empty());
    }
    if es.len() > 0 {
        let e = es.last();
        match e {
            Event::TextDelta { text } => {},
            _ => {
                assert(all_deltas(es.drop_last()) + Seq::<char>::empty() =~= all_deltas(es.drop_last()));
            },
        }
    }
}

/// The session id of a drained run is the one the backend assigned when it
/// started the run; where it assigned none, the one carried by the first
/// start event that carries one; otherwise the stream's session id.
pub proof fn law_run_session_id(rid: Option<Seq<char>>, stream: Seq<char>, es: Seq<Event>)
    ensures
        drain_events(initial_drain(rid, stream), es).stream_session_id == stream,
        drain_events(initial_drain(rid, stream), es).runtime_session_id == match rid {
            Some(s) => Some(s),
            None => first_started_id(es),
        },
        response_session_id(drain_events(initial_drain(rid, stream), es)) == match rid {
            Some(s) => s,
            None => match first_started_id(es) {
                Some(s) => s,
                None => stream,
            },
        },
    decreases es.len(),
{
    if es.len() > 0 {
        law_run_session_id(rid, stream, es.drop_last());
    }
}

/// The exit code of a drained run is the one set by its last event that sets
/// one (a finish event with a code, or an unrecoverable error, which sets 1),
/// and 0 where no event sets one.
pub proof fn law_run_exit_code(rid: Option<Seq<char>>, stream: Seq<char>, es: Seq<Event>)
    ensures
        drain_events(initial_drain(rid, stream), es).exit_code == match last_exit(es) {
            Some(c) => c,
            None => 0,
        },
    decreases es.len(),
{
    if es.len() > 0 {
        law_run_exit_code(rid, stream, es.drop_last());
    }
}

/// A drained run keeps, in the order the events came, the texts of its
/// thinking events, the messages of its errors, a record of each tool call and
/// tool result, and the metadata of its artifact and metadata events.
pub proof fn law_run_gathers(rid: Option<Seq<char>>, stream: Seq<char>, es: Seq<Event>)
    ensures
        drain_events(initial_drain(rid, stream), es).thinking == es.filter_map(
            |e: Event| thinking_of(e),
        ),
        drain_events(initial_drain(rid, stream), es).errors == es.filter_map(|e: Event| error_of(e)),
        drain_events(initial_drain(rid, stream), es).tool_calls == es.filter_map(
            |e: Event| tool_call_of(e),
        ),
        drain_events(initial_drain(rid, stream), es).tool_results == es.filter_map(
            |e: Event| tool_result_of(e),
        ),
        drain_events(initial_drain(rid, stream), es).metadata == es.filter_map(
            |e: Event| metadata_of(e),
        ),
    decreases es.len(),
{
    if es.len() > 0 {
        let rest = es.drop_last();
        law_run_gathers(rid, stream, rest);
        assert(rest.push(es.last()) =~= es);
        lemma_filter_map_push(rest, es.last(), |e: Event| thinking_of(e));
        lemma_filter_map_push(rest, es.last(), |e: Event| error_of(e));
        lemma_filter_map_push(rest, es.last(), |e: Event| tool_call_of(e));
        lemma_filter_map_push(rest, es.last(), |e: Event| tool_result_of(e));
        lemma_filter_map_push(rest, es.last(), |e: Event| metadata_of(e));
    }
}

/// What a host sees streamed agrees with the response: every notification
/// carries the stream's session id, the texts of the non-final outputs join
/// into the gathered text deltas, and the last final output is the last final
/// text; so the response output is the last final output streamed, or else
/// all streamed non-final text.
pub proof fn law_stream_agrees(rid: Option<Seq<char>>, stream: Seq<char>, es: Seq<Event>)
    ensures
        forall|i: int|
            0 <= i < notices_of(stream, es).len() ==> notice_session(
                #[trigger] notices_of(stream, es)[i],
            ) == stream,
        streamed_text(notices_of(stream, es)) == all_deltas(es),
        last_final_notice(notices_of(stream, es)) == last_final_text(es),
        response_output(drain_events(initial_drain(rid, stream), es)) == match last_final_notice(
            notices_of(stream, es),
        ) {
            Some(t) => t,
            None => streamed_text(notices_of(stream, es)),
        },
    decreases es.len(),
{
    law_run_output(rid, stream, es);
    let f = |e: Event| notify(stream, e);
    if es.len() > 0 {
        let rest = es.drop_last();
        let e = es.last();
        law_stream_agrees(rid, stream, rest);
        assert(rest.push(e) =~= es);
        lemma_filter_map_push(rest, e, f);
        let ns = notices_of(stream, rest);
        assert(notices_of(stream, es) == match f(e) {
            Some(y) => ns.push(y),
            None => ns,
        });
        match f(e) {
            Some(y) => {
                assert(ns.push(y).drop_last() =~= ns);
                match e {
                    Event::TextDelta { text } => {},
                    _ => {
                        assert(all_deltas(rest) + Seq::<char>::empty() =~= all_deltas(rest));
                        assert(streamed_text(ns) + Seq::<char>::empty() =~= streamed_text(ns));
                    },
                }
                assert forall|i: int| 0 <= i < ns.push(y).len() implies notice_session(
                    #[trigger] ns.push(y)[i],
                ) == stream by {
                    if i < ns.len() {
                        assert(ns.push(y)[i] == ns[i]);
                    }
                }
            },
            None => {
                assert(all_deltas(rest) + Seq::<char>::empty() =~= all_deltas(rest));
            },
        }
    } else {
        assert(Seq::<char>::empty() + Seq::<char>::empty() =~= Seq::<char>::empty());
    }
}

/// Two responses of the same drained state, for the same backend and
/// duration, agree in every field: whether a run is drained with or without a
/// listener for its notifications, its response is the same.
pub proof fn law_response_determined(
    r1: AgentRunResponse,
    r2: AgentRunResponse,
    d: DrainModel,
    selected_backend: Seq<char>,
    duration_ms: u64,
)
    requires
        response_matches(r1, d, selected_backend, duration_ms),
        response_matches(r2, d, selected_backend, duration_ms),
    ensures
        r1.session_id@ == r2.session_id@,
        r1.exit_code == r2.exit_code,
        r1.output@ == r2.output@,
        models_of(r1.tool_calls@) == models_of(r2.tool_calls@),
        models_of(r1.tool_results@) == models_of(r2.tool_results@),
        models_of(r1.metadata@) == models_of(r2.metadata@),
        strs(r1.thinking@) == strs(r2.thinking@),
        strs(r1.errors@) == strs(r2.errors@),
        r1.backend@ == r2.backend@,
{
}

/// Draining a run one event at a time, through [`RunDrain::step`], and
/// streaming each step's notification, is draining the whole sequence: after
/// one more event the state is the drained state of the longer sequence, the
/// stream's session id has not changed, and the notifications streamed so far
/// are those of the longer sequence, in order.
pub proof fn law_step_extends_run(d: DrainModel, es: Seq<Event>, e: Event)
    ensures
        drain_events(d, es).stream_session_id == d.stream_session_id,
        drain_events(d, es.push(e)) == apply_event(drain_events(d, es), e),
        notices_of(d.stream_session_id, es.push(e)) == match notify(
            drain_events(d, es).stream_session_id,
            e,
        ) {
            Some(n) => notices_of(d.stream_session_id, es).push(n),
            None => notices_of(d.stream_session_id, es),
        },
    decreases es.len(),
{
    if es.len() > 0 {
        law_step_extends_run(d, es.drop_last(), es.last());
        assert(es.drop_last().push(es.last()) =~= es);
    }
    assert(es.push(e).drop_last() =~= es);
    lemma_filter_map_push(es, e, |x: Event| notify(d.stream_session_id, x));
}

// ---------------------------------------------------------------------------
// What the records and notifications carry
// ---------------------------------------------------------------------------

proof fn lemma_filter_map_compose<A, B, C>(
    s: Seq<A>,
    f: spec_fn(A) -> Option<B>,
    g: spec_fn(B) -> Option<C>,
    h: spec_fn(A) -> Option<C>,
)
    requires
        forall|x: A|
            #[trigger] h(x) == match f(x) {
                Some(y) => g(y),
                None => None,
            },
    ensures
        s.filter_map(f).filter_map(g) == s.filter_map(h),
    decreases s.len(),
{
    if s.len() > 0 {
        let rest = s.drop_last();
        let x = s.last();
        lemma_filter_map_compose(rest, f, g, h);
        assert(rest.push(x) =~= s);
        lemma_filter_map_push(rest, x, f);
        lemma_filter_map_push(rest, x, h);
        assert(h(x) == match f(x) {
            Some(y) => g(y),
            None => None,
        });
        match f(x) {
            Some(y) => {
                lemma_filter_map_push(rest.filter_map(f), y, g);
            },
            None => {},
        }
    } else {
        assert(s.filter_map(f) =~= Seq::<B>::empty());
        assert(s.filter_map(f).filter_map(g) =~= Seq::<C>::empty());
        assert(s.filter_map(h) =~= Seq::<C>::empty());
    }
}

proof fn lemma_filter_map_then_map<A, B, C>(
    s: Seq<A>,
    f: spec_fn(A) -> Option<C>,
    g: spec_fn(A) -> Option<B>,
    h: spec_fn(B) -> C,
)
    requires
        forall|x: A|
            #[trigger] f(x) == match g(x) {
                Some(y) => Some(h(y)),
                None => None,
            },
    ensures
        s.filter_map(f) == s.filter_map(g).map_values(h),
    decreases s.len(),
{
    if s.len() > 0 {
        let rest = s.drop_last();
        let x = s.last();
        lemma_filter_map_then_map(rest, f, g, h);
        assert(rest.push(x) =~= s);
        lemma_filter_map_push(rest, x, f);
        lemma_filter_map_push(rest, x, g);
        assert(f(x) == match g(x) {
            Some(y) => Some(h(y)),
            None => None,
        });
        match g(x) {
            Some(y) => {
                assert(rest.filter_map(g).push(y).map_values(h) =~= rest.filter_map(g).map_values(
                    h,
                ).push(h(y)));
            },
            None => {},
        }
    } else {
        assert(s.filter_map(g).map_values(h) =~= Seq::<C>::empty());
    }
}

/// The tool-result events, each as (tool name, output, success).
pub open spec fn tool_result_events(es: Seq<Event>) -> Seq<(Seq<char>, Json, bool)> {
    es.filter_map(
        |e: Event|
            match e {
                Event::ToolResult { tool_name, output, success } => Some((tool_name, output, success)),
                _ => None,
            },
    )
}

/// The tool-call events, each as (tool name, arguments, server).
pub open spec fn tool_call_events(es: Seq<Event>) -> Seq<(Seq<char>, Json, Option<Seq<char>>)> {
    es.filter_map(
        |e: Event|
            match e {
                Event::ToolCall { tool_name, arguments, server } => Some((tool_name, arguments, server)),
                _ => None,
            },
    )
}

proof fn lemma_tool_result_record_fields(name: Seq<char>, output: Json, success: bool)
    ensures
        field(tool_result_record(name, output, success), "tool_name"@) == Some(Json::Str(name)),
        field(tool_result_record(name, output, success), "output"@) == Some(output),
        field(tool_result_record(name, output, success), "success"@) == Some(Json::Bool(success)),
{
    reveal_strlit("tool_name");
    reveal_strlit("output");
    reveal_strlit("success");
    let e = seq![
        ("tool_name"@, Json::Str(name)),
        ("output"@, output),
        ("success"@, Json::Bool(success)),
    ];
    assert("tool_name"@.len() == 9 && "output"@.len() == 6 && "success"@.len() == 7);
    let e1 = seq![("output"@, output), ("success"@, Json::Bool(success))];
    let e2 = seq![("success"@, Json::Bool(success))];
    assert(e.drop_first() =~= e1);
    assert(e1.drop_first() =~= e2);
    assert(obj_get(e2, "success"@) == Some(Json::Bool(success)));
    assert(obj_get(e1, "success"@) == obj_get(e2, "success"@));
    assert(obj_get(e, "success"@) == obj_get(e1, "success"@));
    assert(obj_get(e1, "output"@) == Some(output));
    assert(obj_get(e, "output"@) == obj_get(e1, "output"@));
}

proof fn lemma_tool_call_record_fields(name: Seq<char>, arguments: Json, server: Option<Seq<char>>)
    ensures
        field(tool_call_record(name, arguments, server), "tool_name"@) == Some(Json::Str(name)),
        field(tool_call_record(name, arguments, server), "arguments"@) == Some(arguments),
        field(tool_call_record(name, arguments, server), "server"@) == Some(
            match server {
                Some(s) => Json::Str(s),
                None => Json::Null,
            },
        ),
{
    reveal_strlit("tool_name");
    reveal_strlit("arguments");
    reveal_strlit("server");
    let e = seq![
        ("tool_name"@, Json::Str(name)),
        ("arguments"@, arguments),
        ("server"@, opt_str_json(server)),
    ];
    assert("tool_name"@.len() == 9 && "arguments"@.len() == 9 && "server"@.len() == 6);
    assert("tool_name"@[0] != "arguments"@[0]);
    let e1 = seq![("arguments"@, arguments), ("server"@, opt_str_json(server))];
    let e2 = seq![("server"@, opt_str_json(server))];
    assert(e.drop_first() =~= e1);
    assert(e1.drop_first() =~= e2);
    assert(obj_get(e2, "server"@) == Some(opt_str_json(server)));
    assert(obj_get(e1, "server"@) == obj_get(e2, "server"@));
    assert(obj_get(e, "server"@) == obj_get(e1, "server"@));
    assert(obj_get(e1, "arguments"@) == Some(arguments));
    assert(obj_get(e, "arguments"@) == obj_get(e1, "arguments"@));
}

spec fn tr_ok(r: Json, t: (Seq<char>, Json, bool)) -> bool {
    &&& field(r, "tool_name"@) == Some(Json::Str(t.0))
    &&& field(r, "output"@) == Some(t.1)
    &&& field(r, "success"@) == Some(Json::Bool(t.2))
}

spec fn tc_ok(r: Json, t: (Seq<char>, Json, Option<Seq<char>>)) -> bool {
    &&& field(r, "tool_name"@) == Some(Json::Str(t.0))
    &&& field(r, "arguments"@) == Some(t.1)
    &&& field(r, "server"@) == Some(
        match t.2 {
            Some(s) => Json::Str(s),
            None => Json::Null,
        },
    )
}

/// A drained run keeps one record per tool result, in order, and the `i`-th
/// record carries the `i`-th tool result's name under `tool_name`, its output
/// under `output` and its success flag under `success`; likewise one record
/// per tool call, carrying its name, its arguments, and its server (or `null`).
pub proof fn law_tool_records(rid: Option<Seq<char>>, stream: Seq<char>, es: Seq<Event>)
    ensures
        drain_events(initial_drain(rid, stream), es).tool_results.len() == tool_result_events(es).len(),
        forall|i: int|
            #![trigger drain_events(initial_drain(rid, stream), es).tool_results[i]]
            0 <= i < tool_result_events(es).len() ==> {
                let r = drain_events(initial_drain(rid, stream), es).tool_results[i];
                let t = tool_result_events(es)[i];
                &&& field(r, "tool_name"@) == Some(Json::Str(t.0))
                &&& field(r, "output"@) == Some(t.1)
                &&& field(r, "success"@) == Some(Json::Bool(t.2))
            },
        drain_events(initial_drain(rid, stream), es).tool_calls.len() == tool_call_events(es).len(),
        forall|i: int|
            #![trigger drain_events(initial_drain(rid, stream), es).tool_calls[i]]
            0 <= i < tool_call_events(es).len() ==> {
                let r = drain_events(initial_drain(rid, stream), es).tool_calls[i];
                let t = tool_call_events(es)[i];
                &&& field(r, "tool_name"@) == Some(Json::Str(t.0))
                &&& field(r, "arguments"@) == Some(t.1)
                &&& field(r, "server"@) == Some(
                    match t.2 {
                        Some(s) => Json::Str(s),
                        None => Json::Null,
                    },
                )
            },
{
    law_run_gathers(rid, stream, es);
    let d = drain_events(initial_drain(rid, stream), es);
    let gr = |e: Event|
        match e {
            Event::ToolResult { tool_name, output, success } => Some((tool_name, output, success)),
            _ => None,
        };
    let hr = |t: (Seq<char>, Json, bool)| tool_result_record(t.0, t.1, t.2);
    assert forall|e: Event|
        #[trigger] tool_result_of(e) == match gr(e) {
            Some(y) => Some(hr(y)),
            None => None,
        } by {}
    lemma_filter_map_then_map(es, |e: Event| tool_result_of(e), gr, hr);
    assert forall|i: int| 0 <= i < tool_result_events(es).len() implies tr_ok(#[trigger] d.tool_results[i], tool_result_events(es)[i]) by {
        let t = tool_result_events(es)[i];
        assert(d.tool_results[i] == hr(t));
        lemma_tool_result_record_fields(t.0, t.1, t.2);
    }
    let gc = |e: Event|
        match e {
            Event::ToolCall { tool_name, arguments, server } => Some((tool_name, arguments, server)),
            _ => None,
        };
    let hc = |t: (Seq<char>, Json, Option<Seq<char>>)| tool_call_record(t.0, t.1, t.2);
    assert forall|e: Event|
        #[trigger] tool_call_of(e) == match gc(e) {
            Some(y) => Some(hc(y)),
            None => None,
        } by {}
    lemma_filter_map_then_map(es, |e: Event| tool_call_of(e), gc, hc);
    assert forall|i: int| 0 <= i < tool_call_events(es).len() implies tc_ok(#[trigger] d.tool_calls[i], tool_call_events(es)[i]) by {
        let t = tool_call_events(es)[i];
        assert(d.tool_calls[i] == hc(t));
        lemma_tool_call_record_fields(t.0, t.1, t.2);
    }
}

/// Each kind of notification streamed carries, in order, exactly what the
/// events of that kind carried: the outputs are the text deltas (not final)
/// and final texts (final); the tool-call notifications the tool calls' names,
/// arguments and servers; the tool-result notifications the tool results'
/// names, outputs and success flags; the thinking notifications the thinking
/// texts; the error notifications the errors' messages and recoverable flags.
pub proof fn law_notifications_carry_events(stream: Seq<char>, es: Seq<Event>)
    ensures
        notices_of(stream, es).filter_map(
            |n: Notice|
                match n {
                    Notice::Output { text, is_final, .. } => Some((text, is_final)),
                    _ => None,
                },
        ) == es.filter_map(
            |e: Event|
                match e {
                    Event::TextDelta { text } => Some((text, false)),
                    Event::FinalText { text } => Some((text, true)),
                    _ => None,
                },
        ),
        notices_of(stream, es).filter_map(
            |n: Notice|
                match n {
                    Notice::ToolCall { name, arguments, server, .. } => Some((name, arguments, server)),
                    _ => None,
                },
        ) == tool_call_events(es),
        notices_of(stream, es).filter_map(
            |n: Notice|
                match n {
                    Notice::ToolResult { name, output, success, .. } => Some((name, output, success)),
                    _ => None,
                },
        ) == tool_result_events(es),
        notices_of(stream, es).filter_map(
            |n: Notice|
                match n {
                    Notice::Thinking { text, .. } => Some(text),
                    _ => None,
                },
        ) == es.filter_map(
            |e: Event|
                match e {
                    Event::Thinking { text } => Some(text),
                    _ => None,
                },
        ),
        notices_of(stream, es).filter_map(
            |n: Notice|
                match n {
                    Notice::Error { message, recoverable, .. } => Some((message, recoverable)),
                    _ => None,
                },
        ) == es.filter_map(
            |e: Event|
                match e {
                    Event::Error { message, recoverable } => Some((message, recoverable)),
                    _ => None,
                },
        ),
{
    lemma_outputs_carry(stream, es);
    lemma_tool_calls_carry(stream, es);
    lemma_tool_results_carry(stream, es);
    lemma_thinking_carry(stream, es);
    lemma_errors_carry(stream, es);
}

proof fn lemma_outputs_carry(stream: Seq<char>, es: Seq<Event>)
    ensures
        notices_of(stream, es).filter_map(|n: Notice|
        match n {
            Notice::Output { text, is_final, .. } => Some((text, is_final)),
            _ => None,
        }) == es.filter_map(|e: Event|
        match e {
            Event::TextDelta { text } => Some((text, false)),
            Event::FinalText { text } => Some((text, true)),
            _ => None,
        }),
{
    let f = |e: Event| notify(stream, e);
    let pn = |n: Notice|
        match n {
            Notice::Output { text, is_final, .. } => Some((text, is_final)),
            _ => None,
        };
    let pe = |e: Event|
        match e {
            Event::TextDelta { text } => Some((text, false)),
            Event::FinalText { text } => Some((text, true)),
            _ => None,
        };
    assert forall|x: Event|
        #[trigger] pe(x) == match f(x) {
            Some(y) => pn(y),
            None => None,
        } by {}
    lemma_filter_map_compose(es, f, pn, pe);
}

proof fn lemma_tool_calls_carry(stream: Seq<char>, es: Seq<Event>)
    ensures
        notices_of(stream, es).filter_map(|n: Notice|
        match n {
            Notice::ToolCall { name, arguments, server, .. } => Some((name, arguments, server)),
            _ => None,
        }) == es.filter_map(|e: Event|
        match e {
            Event::ToolCall { tool_name, arguments, server } => Some((tool_name, arguments, server)),
            _ => None,
        }),
{
    let f = |e: Event| notify(stream, e);
    let pn = |n: Notice|
        match n {
            Notice::ToolCall { name, arguments, server, .. } => Some((name, arguments, server)),
            _ => None,
        };
    let pe = |e: Event|
        match e {
            Event::ToolCall { tool_name, arguments, server } => Some((tool_name, arguments, server)),
            _ => None,
        };
    assert forall|x: Event|
        #[trigger] pe(x) == match f(x) {
            Some(y) => pn(y),
            None => None,
        } by {}
    lemma_filter_map_compose(es, f, pn, pe);
}

proof fn lemma_tool_results_carry(stream: Seq<char>, es: Seq<Event>)
    ensures
        notices_of(stream, es).filter_map(|n: Notice|
        match n {
            Notice::ToolResult { name, output, success, .. } => Some((name, output, success)),
            _ => None,
        }) == es.filter_map(|e: Event|
        match e {
            Event::ToolResult { tool_name, output, success } => Some((tool_name, output, success)),
            _ => None,
        }),
{
    let f = |e: Event| notify(stream, e);
    let pn = |n: Notice|
        match n {
            Notice::ToolResult { name, output, success, .. } => Some((name, output, success)),
            _ => None,
        };
    let pe = |e: Event|
        match e {
            Event::ToolResult { tool_name, output, success } => Some((tool_name, output, success)),
            _ => None,
        };
    assert forall|x: Event|
        #[trigger] pe(x) == match f(x) {
            Some(y) => pn(y),
            None => None,
        } by {}
    lemma_filter_map_compose(es, f, pn, pe);
}

proof fn lemma_thinking_carry(stream: Seq<char>, es: Seq<Event>)
    ensures
        notices_of(stream, es).filter_map(|n: Notice|
        match n {
            Notice::Thinking { text, .. } => Some(text),
            _ => None,
        }) == es.filter_map(|e: Event|
        match e {
            Event::Thinking { text } => Some(text),
            _ => None,
        }),
{
    let f = |e: Event| notify(stream, e);
    let pn = |n: Notice|
        match n {
            Notice::Thinking { text, .. } => Some(text),
            _ => None,
        };
    let pe = |e: Event|
        match e {
            Event::Thinking { text } => Some(text),
            _ => None,
        };
    assert forall|x: Event|
        #[trigger] pe(x) == match f(x) {
            Some(y) => pn(y),
            None => None,
        } by {}
    lemma_filter_map_compose(es, f, pn, pe);
}

proof fn lemma_errors_carry(stream: Seq<char>, es: Seq<Event>)
    ensures
        notices_of(stream, es).filter_map(|n: Notice|
        match n {
            Notice::Error { message, recoverable, .. } => Some((message, recoverable)),
            _ => None,
        }) == es.filter_map(|e: Event|
        match e {
            Event::Error { message, recoverable } => Some((message, recoverable)),
            _ => None,
        }),
{
    let f = |e: Event| notify(stream, e);
    let pn = |n: Notice|
        match n {
            Notice::Error { message, recoverable, .. } => Some((message, recoverable)),
            _ => None,
        };
    let pe = |e: Event|
        match e {
            Event::Error { message, recoverable } => Some((message, recoverable)),
            _ => None,
        };
    assert forall|x: Event|
        #[trigger] pe(x) == match f(x) {
            Some(y) => pn(y),
            None => None,
        } by {}
    lemma_filter_map_compose(es, f, pn, pe);
}

/// The artifact and metadata events, in order: an artifact as its id and
/// metadata, a metadata event as its metadata alone.
pub open spec fn metadata_events(es: Seq<Event>) -> Seq<(Option<Seq<char>>, Json)> {
    es.filter_map(
        |e: Event|
            match e {
                Event::Artifact { artifact_id, metadata } => Some((Some(artifact_id), metadata)),
                Event::Metadata { metadata } => Some((None, metadata)),
                _ => None,
            },
    )
}

spec fn md_ok(r: Json, t: (Option<Seq<char>>, Json)) -> bool {
    match t.0 {
        Some(id) => {
            &&& field(r, "kind"@) == Some(Json::Str("artifact"@))
            &&& field(r, "artifact_id"@) == Some(Json::Str(id))
            &&& field(r, "metadata"@) == Some(t.1)
        },
        None => r == t.1,
    }
}

proof fn lemma_artifact_record_fields(artifact_id: Seq<char>, metadata: Json)
    ensures
        field(artifact_record(artifact_id, metadata), "kind"@) == Some(Json::Str("artifact"@)),
        field(artifact_record(artifact_id, metadata), "artifact_id"@) == Some(Json::Str(artifact_id)),
        field(artifact_record(artifact_id, metadata), "metadata"@) == Some(metadata),
{
    reveal_strlit("kind");
    reveal_strlit("artifact_id");
    reveal_strlit("metadata");
    assert("kind"@.len() == 4 && "artifact_id"@.len() == 11 && "metadata"@.len() == 8);
    let e = artifact_record(artifact_id, metadata)->Object_0;
    lemma_obj_get_at(e, "kind"@, 0);
    lemma_obj_get_at(e, "artifact_id"@, 1);
    lemma_obj_get_at(e, "metadata"@, 2);
}

/// A drained run keeps one metadata entry per artifact or metadata event, in
/// order: for an artifact, a record of kind `artifact` carrying its id and its
/// metadata; for a metadata event, its metadata as it came.
pub proof fn law_metadata_records(rid: Option<Seq<char>>, stream: Seq<char>, es: Seq<Event>)
    ensures
        drain_events(initial_drain(rid, stream), es).metadata.len() == metadata_events(es).len(),
        forall|i: int|
            #![trigger drain_events(initial_drain(rid, stream), es).metadata[i]]
            0 <= i < metadata_events(es).len() ==> match metadata_events(es)[i].0 {
                Some(id) => {
                    &&& field(drain_events(initial_drain(rid, stream), es).metadata[i], "kind"@)
                        == Some(Json::Str("artifact"@))
                    &&& field(drain_events(initial_drain(rid, stream), es).metadata[i], "artifact_id"@)
                        == Some(Json::Str(id))
                    &&& field(drain_events(initial_drain(rid, stream), es).metadata[i], "metadata"@)
                        == Some(metadata_events(es)[i].1)
                },
                None => drain_events(initial_drain(rid, stream), es).metadata[i] == metadata_events(
                    es,
                )[i].1,
            },
{
    law_run_gathers(rid, stream, es);
    let d = drain_events(initial_drain(rid, stream), es);
    let g = |e: Event|
        match e {
            Event::Artifact { artifact_id, metadata } => Some((Some(artifact_id), metadata)),
            Event::Metadata { metadata } => Some((None, metadata)),
            _ => None,
        };
    let h = |t: (Option<Seq<char>>, Json)|
        match t.0 {
            Some(id) => artifact_record(id, t.1),
            None => t.1,
        };
    assert forall|e: Event|
        #[trigger] metadata_of(e) == match g(e) {
            Some(y) => Some(h(y)),
            None => None,
        } by {}
    lemma_filter_map_then_map(es, |e: Event| metadata_of(e), g, h);
    assert forall|i: int| 0 <= i < metadata_events(es).len() implies md_ok(
        #[trigger] d.metadata[i],
        metadata_events(es)[i],
    ) by {
        let t = metadata_events(es)[i];
        assert(d.metadata[i] == h(t));
        match t.0 {
            Some(id) => lemma_artifact_record_fields(id, t.1),
            None => {},
        }
    }
}

} // verus!
