use vstd::prelude::*;

verus! {

/// The model that a session runs when a request names none.
pub open spec fn spec_default_model() -> Seq<char> {
    "gpt-5.2"@
}

/// The name under which the OpenCode CLI is looked up when none is configured.
pub open spec fn spec_default_bin() -> Seq<char> {
    "opencode"@
}

/// Runtime configuration for the OpenCode provider plugin.
///
/// `opencode_bin` is the binary name or absolute path of the `opencode` CLI;
/// `default_model` is the model passed through when a run request names none.
#[derive(Debug, Clone)]
pub struct OpenCodeConfig {
    pub opencode_bin: String,
    pub default_model: String,
}

fn default_model_string() -> (r: String)
    ensures
        r@ == spec_default_model(),
{
    "gpt-5.2".to_string()
}

fn default_bin_string() -> (r: String)
    ensures
        r@ == spec_default_bin(),
{
    "opencode".to_string()
}

impl OpenCodeConfig {
    /// The configuration read from the two settings `OPENCODE_BIN` and
    /// `OPENCODE_DEFAULT_MODEL`, given here as the values they held (`None` where
    /// a setting was unset or unreadable); each missing one takes its default.
    pub fn from_env_values(opencode_bin: Option<String>, default_model: Option<String>) -> (r:
        OpenCodeConfig)
        ensures
            r.opencode_bin@ == match opencode_bin {
                Some(b) => b@,
                None => spec_default_bin(),
            },
            r.default_model@ == match default_model {
                Some(m) => m@,
                None => spec_default_model(),
            },
    {
        let opencode_bin = match opencode_bin {
            Some(b) => b,
            None => default_bin_string(),
        };
        let default_model = match default_model {
            Some(m) => m,
            None => default_model_string(),
        };
        OpenCodeConfig { opencode_bin, default_model }
    }

    /// A configuration for the given binary, with the default model.
    pub fn for_testing(opencode_bin: &str) -> (r: OpenCodeConfig)
        ensures
            r.opencode_bin@ == opencode_bin@,
            r.default_model@ == spec_default_model(),
    {
        OpenCodeConfig { opencode_bin: opencode_bin.to_string(), default_model: default_model_string() }
    }
}

impl Default for OpenCodeConfig {
    fn default() -> (r: OpenCodeConfig)
        ensures
            r.opencode_bin@ == spec_default_bin(),
            r.default_model@ == spec_default_model(),
    {
        OpenCodeConfig { opencode_bin: default_bin_string(), default_model: default_model_string() }
    }
}

} // verus!
