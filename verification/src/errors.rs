use vstd::prelude::*;

verus! {

/// A failure reported by the session backend.
///
/// `Io` holds the text of the underlying I/O error and `Other` the text of
/// any other error.
#[derive(Debug)]
pub enum SessionError {
    CliNotFound(String),
    ExecutionFailed(String),
    ValidationFailed(String),
    Io(String),
    Serialization(String),
    Other(String),
}

/// A failure that the provider reports to its host.
#[derive(Debug)]
pub enum BackendError {
    Unavailable(String),
    RunFailed(String),
    Other(String),
}

/// The message of a backend failure.
pub open spec fn backend_message(e: BackendError) -> Seq<char> {
    match e {
        BackendError::Unavailable(m) => m@,
        BackendError::RunFailed(m) => m@,
        BackendError::Other(m) => m@,
    }
}

/// The backend failure for a session failure: a missing CLI makes the provider
/// unavailable, a failed execution or an I/O failure fails the run, and any
/// other failure is reported as such; each message is prefixed with what
/// failed, except that of an unclassified failure, which is passed on as it is.
pub open spec fn spec_map_session_error(e: SessionError, r: BackendError) -> bool {
    match e {
        SessionError::CliNotFound(m) => r is Unavailable && backend_message(r)
            == "opencode CLI not found: "@ + m@,
        SessionError::ExecutionFailed(m) => r is RunFailed && backend_message(r)
            == "opencode execution: "@ + m@,
        SessionError::ValidationFailed(m) => r is Other && backend_message(r)
            == "opencode validation: "@ + m@,
        SessionError::Io(m) => r is RunFailed && backend_message(r) == "opencode io: "@ + m@,
        SessionError::Serialization(m) => r is Other && backend_message(r)
            == "opencode serialization: "@ + m@,
        SessionError::Other(m) => r is Other && backend_message(r) == m@,
    }
}

fn prefixed(prefix: &str, message: &String) -> (r: String)
    ensures
        r@ == prefix@ + message@,
{
    let mut s = prefix.to_string();
    s.append(message.as_str());
    s
}

/// The failure reported to the host for a failure of the session backend.
pub fn map_session_error(err: SessionError) -> (r: BackendError)
    ensures
        spec_map_session_error(err, r),
{
    match err {
        SessionError::CliNotFound(m) => BackendError::Unavailable(
            prefixed("opencode CLI not found: ", &m),
        ),
        SessionError::ExecutionFailed(m) => BackendError::RunFailed(
            prefixed("opencode execution: ", &m),
        ),
        SessionError::ValidationFailed(m) => BackendError::Other(
            prefixed("opencode validation: ", &m),
        ),
        SessionError::Io(m) => BackendError::RunFailed(prefixed("opencode io: ", &m)),
        SessionError::Serialization(m) => BackendError::Other(
            prefixed("opencode serialization: ", &m),
        ),
        SessionError::Other(m) => BackendError::Other(m),
    }
}

/// The outcome of a call to the session backend as the host sees it: a result
/// passes through unchanged, a failure is mapped by [`map_session_error`].
pub fn map_session_result<T>(outcome: Result<T, SessionError>) -> (r: Result<T, BackendError>)
    ensures
        match outcome {
            Ok(v) => r is Ok && r->Ok_0 == v,
            Err(e) => r is Err && spec_map_session_error(e, r->Err_0),
        },
{
    match outcome {
        Ok(v) => Ok(v),
        Err(e) => Err(map_session_error(e)),
    }
}

impl BackendError {
    /// The message of the failure.
    pub fn message(&self) -> (r: &String)
        ensures
            r@ == backend_message(*self),
    {
        match self {
            BackendError::Unavailable(m) => m,
            BackendError::RunFailed(m) => m,
            BackendError::Other(m) => m,
        }
    }
}

/// The message of the failure of a resume request without a session id.
pub open spec fn spec_missing_session_id_message() -> Seq<char> {
    "opencode: resume requires a session_id on the request"@
}

/// The session id that a resume request names; a request that names none is
/// refused.
pub fn resume_session_id(session_id: &Option<String>) -> (r: Result<String, BackendError>)
    ensures
        match *session_id {
            Some(s) => r is Ok && r->Ok_0@ == s@,
            None => r is Err && r->Err_0 is Other && backend_message(r->Err_0)
                == spec_missing_session_id_message(),
        },
{
    match session_id {
        Some(s) => Ok(s.clone()),
        None => Err(
            BackendError::Other("opencode: resume requires a session_id on the request".to_string()),
        ),
    }
}

/// The message of a session failure.
pub open spec fn session_message(e: SessionError) -> Seq<char> {
    match e {
        SessionError::CliNotFound(m) => m@,
        SessionError::ExecutionFailed(m) => m@,
        SessionError::ValidationFailed(m) => m@,
        SessionError::Io(m) => m@,
        SessionError::Serialization(m) => m@,
        SessionError::Other(m) => m@,
    }
}

/// Every session failure reaches the host with its message at the end of the
/// host's message; a missing CLI makes the provider unavailable, a failed
/// execution or I/O fails the run, and every other failure is reported as such.
pub proof fn law_session_failure_kept(e: SessionError, r: BackendError)
    requires
        spec_map_session_error(e, r),
    ensures
        backend_message(r).len() >= session_message(e).len(),
        backend_message(r).subrange(
            backend_message(r).len() - session_message(e).len(),
            backend_message(r).len() as int,
        ) == session_message(e),
        e is CliNotFound <==> r is Unavailable,
        (e is ExecutionFailed || e is Io) <==> r is RunFailed,
        (e is ValidationFailed || e is Serialization || e is Other) <==> r is Other,
{
    let m = backend_message(r);
    let k = session_message(e);
    let p = m.subrange(0, m.len() - k.len());
    assert(m.subrange(m.len() - k.len(), m.len() as int) =~= k);
}

} // verus!
