use vstd::prelude::*;

use crate::drain::strs;

verus! {

/// What the session backend reports it can do.
pub struct SessionCapabilities {
    pub supports_resume: bool,
    pub supports_terminate: bool,
    pub supports_mcp: bool,
}

/// What the provider advertises it can do.
#[derive(Debug, Clone, Copy, PartialEq, Eq, Structural)]
pub struct ProviderCapabilities {
    pub streaming: bool,
    pub resume: bool,
    pub cancellation: bool,
    pub write_capable: bool,
    pub mcp: bool,
}

/// The package's name, version and description.
pub struct PackageInfo {
    pub name: String,
    pub version: String,
    pub description: String,
}

/// The provider's manifest.
pub struct ProviderManifest {
    pub name: String,
    pub version: String,
    pub description: String,
    pub supported_models: Vec<String>,
    pub tool: String,
    pub capabilities: ProviderCapabilities,
}

/// The models that the provider advertises.
pub open spec fn spec_supported_models() -> Seq<Seq<char>> {
    seq![
        "openai/gpt-5.2"@,
        "openai/gpt-5"@,
    ]
}

/// The manifest of the package, for a session backend that serves the tool
/// `provider_tool` with the capabilities `caps`: streaming and writing always,
/// resuming, cancelling and MCP as far as the backend supports them.
pub open spec fn manifest_matches(
    m: ProviderManifest,
    package: PackageInfo,
    provider_tool: Seq<char>,
    caps: SessionCapabilities,
) -> bool {
    &&& m.name@ == package.name@
    &&& m.version@ == package.version@
    &&& m.description@ == package.description@
    &&& strs(m.supported_models@) == spec_supported_models()
    &&& m.tool@ == provider_tool
    &&& m.capabilities == ProviderCapabilities {
        streaming: true,
        resume: caps.supports_resume,
        cancellation: caps.supports_terminate,
        write_capable: true,
        mcp: caps.supports_mcp,
    }
}

pub(crate) fn supported_models() -> (r: Vec<String>)
    ensures
        strs(r@) == spec_supported_models(),
{
    let mut v: Vec<String> = Vec::new();
    v.push("openai/gpt-5.2".to_string());
    v.push("openai/gpt-5".to_string());
    assert(strs(v@) =~= spec_supported_models());
    v
}

/// A manifest streams and writes always, and resumes, cancels and serves MCP
/// exactly as far as the session backend supports resuming, terminating and
/// MCP; it carries the package's name, version and description, names the
/// backend's tool, and advertises `openai/gpt-5.2`.
pub proof fn law_manifest_follows_backend(
    m: ProviderManifest,
    package: PackageInfo,
    provider_tool: Seq<char>,
    caps: SessionCapabilities,
)
    requires
        manifest_matches(m, package, provider_tool, caps),
    ensures
        m.capabilities.streaming,
        m.capabilities.write_capable,
        m.capabilities.resume == caps.supports_resume,
        m.capabilities.cancellation == caps.supports_terminate,
        m.capabilities.mcp == caps.supports_mcp,
        m.name@ == package.name@,
        m.version@ == package.version@,
        m.description@ == package.description@,
        m.tool@ == provider_tool,
        strs(m.supported_models@).contains("openai/gpt-5.2"@),
{
    assert(strs(m.supported_models@)[0] == "openai/gpt-5.2"@);
}

} // verus!
