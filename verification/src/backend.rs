use vstd::prelude::*;

use crate::config::OpenCodeConfig;
use crate::json::{entry_models_of, Json};
use crate::errors::{backend_message, resume_session_id, spec_missing_session_id_message, BackendError};
use crate::health::{spec_missing_binary_message, HealthReport, HealthStatus};
use crate::manifest::{
    manifest_matches, supported_models, PackageInfo, ProviderCapabilities, ProviderManifest,
    SessionCapabilities,
};
use crate::request::{
    copy_bytes, copy_pairs, distinct_env_keys, distinct_keys, extract_mcp_endpoint, merge_extras,
    plan_matches, AgentRequest, SessionPlan,
};

verus! {

/// The OpenCode provider: it turns run requests into session plans for the
/// session backend, advertises its manifest and reports its health.
pub struct OpenCodeProviderBackend {
    config: OpenCodeConfig,
}

impl OpenCodeProviderBackend {
    /// The configuration the provider was made with.
    pub closed spec fn configuration(&self) -> OpenCodeConfig {
        self.config
    }

    /// A provider with the given configuration.
    pub fn new(config: OpenCodeConfig) -> (r: OpenCodeProviderBackend)
        ensures
            r.configuration() == config,
    {
        OpenCodeProviderBackend { config }
    }

    /// The configuration the provider was made with.
    pub fn config(&self) -> (r: &OpenCodeConfig)
        ensures
            *r == self.configuration(),
    {
        &self.config
    }

    /// The session plan for `request`: the tool `opencode`, the model (the
    /// request's own or the configured default), the prompt (preceded by the
    /// system prompt and a blank line where there is one), the working directory
    /// and project root, the MCP endpoint, the
    /// permission mode, the timeout, the environment, and the extras joined with
    /// the runtime contract.
    pub fn build_session_request(&self, request: &AgentRequest) -> (r: SessionPlan)
        ensures
            plan_matches(r, self.configuration(), *request),
            distinct_env_keys(request.env@) ==> distinct_env_keys(r.env_vars@),
            distinct_keys(entry_models_of(request.extras@)) && request.extras@.len() > 0 ==> (
            r.extras@ matches Json::Object(e) && distinct_keys(e)),
    {
        let model = match &request.model {
            Some(m) => m.clone(),
            None => self.config.default_model.clone(),
        };
        let prompt = match &request.system_prompt {
            Some(system) => {
                let mut p = system.clone();
                p.append("\n\n");
                p.append(request.prompt.as_str());
                p
            },
            None => request.prompt.clone(),
        };
        let mcp_endpoint = match &request.mcp_servers {
            Some(v) => extract_mcp_endpoint(v),
            None => None,
        };
        let cwd = copy_bytes(&request.cwd);
        let project_root = match &request.project_root {
            Some(p) => Some(copy_bytes(p)),
            None => None,
        };
        let env_vars = copy_pairs(&request.env);
        let extras = merge_extras(&request.extras, &request.runtime_contract);
        SessionPlan {
            tool: "opencode".to_string(),
            model,
            prompt,
            cwd,
            project_root,
            mcp_endpoint,
            permission_mode: request.permission_mode.clone(),
            timeout_secs: request.timeout_secs,
            env_vars,
            extras,
        }
    }

    /// The start of a resumed run: a request that names no session id is
    /// refused before anything is asked of the session backend; otherwise the
    /// session to resume and the plan to resume it with.
    pub fn prepare_resume(&self, request: &AgentRequest) -> (r: Result<(String, SessionPlan), BackendError>)
        ensures
            match request.session_id {
                Some(s) => r is Ok && r->Ok_0.0@ == s@ && plan_matches(
                    r->Ok_0.1,
                    self.configuration(),
                    *request,
                ),
                None => r is Err && r->Err_0 is Other && backend_message(r->Err_0)
                    == spec_missing_session_id_message(),
            },
    {
        match resume_session_id(&request.session_id) {
            Ok(id) => Ok((id, self.build_session_request(request))),
            Err(e) => Err(e),
        }
    }

    /// The provider's manifest for `package`, over a session backend that
    /// serves the tool `provider_tool` with the capabilities `caps`.
    pub fn manifest(&self, package: &PackageInfo, provider_tool: &String, caps: &SessionCapabilities) -> (r:
        ProviderManifest)
        ensures
            manifest_matches(r, *package, provider_tool@, *caps),
    {
        ProviderManifest {
            name: package.name.clone(),
            version: package.version.clone(),
            description: package.description.clone(),
            supported_models: supported_models(),
            tool: provider_tool.clone(),
            capabilities: ProviderCapabilities {
                streaming: true,
                resume: caps.supports_resume,
                cancellation: caps.supports_terminate,
                write_capable: true,
                mcp: caps.supports_mcp,
            },
        }
    }

    /// The health report, given whether a lookup of the configured binary on
    /// the search path found it: healthy with no error where it was found,
    /// unhealthy with a message naming the binary otherwise.
    pub fn health(&self, binary_found: bool) -> (r: HealthReport)
        ensures
            binary_found ==> r.status == HealthStatus::Healthy && r.last_error is None,
            !binary_found ==> r.status == HealthStatus::Unhealthy && r.last_error is Some
                && r.last_error->Some_0@ == spec_missing_binary_message(
                self.configuration().opencode_bin@,
            ),
    {
        if binary_found {
            HealthReport { status: HealthStatus::Healthy, last_error: None }
        } else {
            let mut msg = "opencode binary not found on PATH: ".to_string();
            msg.append(self.config.opencode_bin.as_str());
            HealthReport { status: HealthStatus::Unhealthy, last_error: Some(msg) }
        }
    }
}

} // verus!
