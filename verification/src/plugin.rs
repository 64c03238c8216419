use vstd::prelude::*;

use crate::json::{
    field, lemma_entry_models_ext, lemma_models_of, lemma_obj_get_absent, lemma_obj_get_at, models_of,
    Json, JsonValue,
};
use crate::manifest::PackageInfo;

verus! {

// ---------------------------------------------------------------------------
// Command line
// ---------------------------------------------------------------------------

/// Whether the command line (program name first) asks for the plugin manifest
/// with `--manifest` or `-m`.
pub open spec fn spec_manifest_requested(args: Seq<Seq<char>>) -> bool {
    exists|i: int| 1 <= i < args.len() && (#[trigger] args[i] == "--manifest"@ || args[i] == "-m"@)
}

/// Whether the command line `args` (program name first) asks for the plugin
/// manifest.
pub fn manifest_requested(args: &Vec<String>) -> (r: bool)
    ensures
        r == spec_manifest_requested(args@.map_values(|a: String| a@)),
{
    let ghost m = args@.map_values(|a: String| a@);
    let long = "--manifest".to_string();
    let short = "-m".to_string();
    let mut i: usize = 1;
    while i < args.len()
        invariant
            1 <= i,
            i <= args.len() || args.len() == 0,
            m == args@.map_values(|a: String| a@),
            long@ == "--manifest"@,
            short@ == "-m"@,
            forall|j: int| 1 <= j < i && j < args.len() ==> !(#[trigger] m[j] == "--manifest"@ || m[j] == "-m"@),
        decreases args.len() - i,
    {
        if args[i] == long || args[i] == short {
            assert(m[i as int] == args@[i as int]@);
            return true;
        }
        i = i + 1;
    }
    proof {
        assert forall|j: int| 1 <= j < m.len() implies !(#[trigger] m[j] == "--manifest"@ || m[j] == "-m"@) by {
            assert(j < i);
        }
    }
    false
}

// ---------------------------------------------------------------------------
// Harness settings
// ---------------------------------------------------------------------------

/// The Unicode `White_Space` characters.
pub open spec fn spec_is_whitespace(c: char) -> bool {
    let n: u32 = c as u32;
    ||| 0x09 <= n <= 0x0d
    ||| n == 0x20
    ||| n == 0x85
    ||| n == 0xa0
    ||| n == 0x1680
    ||| 0x2000 <= n <= 0x200a
    ||| n == 0x2028
    ||| n == 0x2029
    ||| n == 0x202f
    ||| n == 0x205f
    ||| n == 0x3000
}

/// Whether `c` is a Unicode `White_Space` character (what `char::is_whitespace`
/// tests).
fn char_is_whitespace(c: char) -> (r: bool)
    ensures
        r == spec_is_whitespace(c),
{
    let n: u32 = c as u32;
    (0x09 <= n && n <= 0x0d) || n == 0x20 || n == 0x85 || n == 0xa0 || n == 0x1680 || (0x2000
        <= n && n <= 0x200a) || n == 0x2028 || n == 0x2029 || n == 0x202f || n == 0x205f || n
        == 0x3000
}

/// A text is blank where it holds whitespace only (so that trimming leaves
/// nothing).
pub open spec fn spec_is_blank(s: Seq<char>) -> bool {
    forall|i: int| 0 <= i < s.len() ==> spec_is_whitespace(#[trigger] s[i])
}

/// Whether `s` holds whitespace only.
pub fn is_blank(s: &String) -> (r: bool)
    ensures
        r == spec_is_blank(s@),
{
    let text = s.as_str();
    let n: usize = text.unicode_len();
    let mut i: usize = 0;
    while i < n
        invariant
            n == s@.len(),
            text@ == s@,
            i <= n,
            forall|j: int| 0 <= j < i ==> spec_is_whitespace(#[trigger] s@[j]),
        decreases n - i,
    {
        let c = text.get_char(i);
        if !char_is_whitespace(c) {
            return false;
        }
        i = i + 1;
    }
    true
}

/// The setting's value where it is set and not blank.
pub open spec fn spec_nonblank(value: Option<String>) -> Option<Seq<char>> {
    match value {
        Some(v) => if spec_is_blank(v@) { None } else { Some(v@) },
        None => None,
    }
}

/// The fallback model of the harness: the setting's value where it is set and
/// not blank, else empty (which lets OpenCode pick its own default).
pub fn harness_default_model(value: Option<String>) -> (r: String)
    ensures
        r@ == match spec_nonblank(value) {
            Some(v) => v,
            None => Seq::empty(),
        },
{
    match value {
        Some(v) => if is_blank(&v) { String::new() } else { v },
        None => String::new(),
    }
}

/// The binary of the harness: the setting's value where it is set and not
/// blank, else `opencode`.
pub fn harness_binary(value: Option<String>) -> (r: String)
    ensures
        r@ == match spec_nonblank(value) {
            Some(v) => v,
            None => "opencode"@,
        },
{
    match value {
        Some(v) => if is_blank(&v) { "opencode".to_string() } else { v },
        None => "opencode".to_string(),
    }
}

// ---------------------------------------------------------------------------
// Plugin manifest
// ---------------------------------------------------------------------------

/// The description of one environment setting in the plugin manifest.
pub open spec fn env_setting(name: Seq<char>, description: Seq<char>, sensitive: bool) -> Json {
    if sensitive {
        Json::Object(
            seq![
                ("name"@, Json::Str(name)),
                ("description"@, Json::Str(description)),
                ("sensitive"@, Json::Bool(true)),
                ("required"@, Json::Bool(false)),
            ],
        )
    } else {
        Json::Object(
            seq![
                ("name"@, Json::Str(name)),
                ("description"@, Json::Str(description)),
                ("required"@, Json::Bool(false)),
            ],
        )
    }
}

/// The environment settings that the plugin reads.
pub open spec fn spec_env_settings() -> Seq<Json> {
    seq![
        env_setting(
            "OPENCODE_BIN"@,
            "Override the OpenCode CLI binary (default `opencode`). Driven in ACP mode via the `acp` subcommand."@,
            false,
        ),
        env_setting(
            "OPENCODE_DEFAULT_MODEL"@,
            "Fallback model used when an agent/run request omits a model."@,
            false,
        ),
        env_setting(
            "OPENAI_API_KEY"@,
            "API key for OpenAI-compatible models routed through OpenCode."@,
            true,
        ),
        env_setting(
            "OPENROUTER_API_KEY"@,
            "OpenRouter API key used by some OpenCode providers."@,
            true,
        ),
        env_setting(
            "ANIMUS_BIN"@,
            "Path to the `animus` binary used for the approve-hook approval gate (default: resolved on PATH)."@,
            false,
        ),
    ]
}

/// The methods that the plugin serves.
pub open spec fn spec_plugin_capabilities() -> Seq<Json> {
    seq![
        Json::Str("agent/run"@),
        Json::Str("agent/resume"@),
        Json::Str("agent/cancel"@),
        Json::Str("health/check"@),
    ]
}

/// The plugin manifest printed on request: the package, the plugin kind
/// `provider`, the protocol version, the methods served and the environment
/// settings read.
pub open spec fn spec_plugin_manifest(package: PackageInfo, protocol_version: Json) -> Json {
    Json::Object(
        seq![
            ("name"@, Json::Str(package.name@)),
            ("version"@, Json::Str(package.version@)),
            ("plugin_kind"@, Json::Str("provider"@)),
            ("description"@, Json::Str(package.description@)),
            ("protocol_version"@, protocol_version),
            ("capabilities"@, Json::Array(spec_plugin_capabilities())),
            ("env_required"@, Json::Array(spec_env_settings())),
        ],
    )
}

fn text(s: &str) -> (r: JsonValue)
    ensures
        r@ == Json::Str(s@),
{
    JsonValue::Str(s.to_string())
}

fn entry(key: &str, value: JsonValue) -> (r: (String, JsonValue))
    ensures
        r.0@ == key@,
        r.1@ == value@,
{
    (key.to_string(), value)
}

fn array(items: Vec<JsonValue>, Ghost(m): Ghost<Seq<Json>>) -> (r: JsonValue)
    requires
        items@.len() == m.len(),
        forall|i: int| 0 <= i < m.len() ==> #[trigger] items@[i]@ == m[i],
    ensures
        r@ == Json::Array(m),
{
    proof {
        lemma_models_of(items@);
        assert forall|i: int| 0 <= i < m.len() implies #[trigger] models_of(items@)[i] == m[i] by {
            assert(items@[i]@ == m[i]);
        }
        assert(models_of(items@) =~= m);
    }
    JsonValue::Array(items)
}

fn object(entries: Vec<(String, JsonValue)>, Ghost(m): Ghost<Seq<(Seq<char>, Json)>>) -> (r: JsonValue)
    requires
        entries@.len() == m.len(),
        forall|i: int| 0 <= i < m.len() ==> #[trigger] m[i] == (entries@[i].0@, entries@[i].1@),
    ensures
        r@ == Json::Object(m),
{
    proof {
        lemma_entry_models_ext(entries@, m);
    }
    JsonValue::Object(entries)
}

fn env_setting_json(name: &str, description: &str, sensitive: bool) -> (r: JsonValue)
    ensures
        r@ == env_setting(name@, description@, sensitive),
{
    let mut entries: Vec<(String, JsonValue)> = Vec::new();
    entries.push(entry("name", text(name)));
    entries.push(entry("description", text(description)));
    if sensitive {
        entries.push(entry("sensitive", JsonValue::Bool(true)));
        entries.push(entry("required", JsonValue::Bool(false)));
        let ghost m = seq![
            ("name"@, Json::Str(name@)),
            ("description"@, Json::Str(description@)),
            ("sensitive"@, Json::Bool(true)),
            ("required"@, Json::Bool(false)),
        ];
        object(entries, Ghost(m))
    } else {
        entries.push(entry("required", JsonValue::Bool(false)));
        let ghost m = seq![
            ("name"@, Json::Str(name@)),
            ("description"@, Json::Str(description@)),
            ("required"@, Json::Bool(false)),
        ];
        object(entries, Ghost(m))
    }
}

/// The plugin manifest of `package`, speaking the protocol `protocol_version`.
pub fn plugin_manifest(package: &PackageInfo, protocol_version: JsonValue) -> (r: JsonValue)
    ensures
        r@ == spec_plugin_manifest(*package, protocol_version@),
{
    let mut methods: Vec<JsonValue> = Vec::new();
    methods.push(text("agent/run"));
    methods.push(text("agent/resume"));
    methods.push(text("agent/cancel"));
    methods.push(text("health/check"));
    let methods = array(methods, Ghost(spec_plugin_capabilities()));

    let mut settings: Vec<JsonValue> = Vec::new();
    settings.push(env_setting_json(
        "OPENCODE_BIN",
        "Override the OpenCode CLI binary (default `opencode`). Driven in ACP mode via the `acp` subcommand.",
        false,
    ));
    settings.push(env_setting_json(
        "OPENCODE_DEFAULT_MODEL",
        "Fallback model used when an agent/run request omits a model.",
        false,
    ));
    settings.push(env_setting_json(
        "OPENAI_API_KEY",
        "API key for OpenAI-compatible models routed through OpenCode.",
        true,
    ));
    settings.push(env_setting_json(
        "OPENROUTER_API_KEY",
        "OpenRouter API key used by some OpenCode providers.",
        true,
    ));
    settings.push(env_setting_json(
        "ANIMUS_BIN",
        "Path to the `animus` binary used for the approve-hook approval gate (default: resolved on PATH).",
        false,
    ));
    let settings = array(settings, Ghost(spec_env_settings()));

    let ghost pv = protocol_version@;
    let mut entries: Vec<(String, JsonValue)> = Vec::new();
    entries.push(entry("name", JsonValue::Str(package.name.clone())));
    entries.push(entry("version", JsonValue::Str(package.version.clone())));
    entries.push(entry("plugin_kind", text("provider")));
    entries.push(entry("description", JsonValue::Str(package.description.clone())));
    entries.push(entry("protocol_version", protocol_version));
    entries.push(entry("capabilities", methods));
    entries.push(entry("env_required", settings));
    let ghost m = spec_plugin_manifest(*package, pv)->Object_0;
    object(entries, Ghost(m))
}

/// Whether `s` ends with `suffix`.
pub open spec fn ends_with(s: Seq<char>, suffix: Seq<char>) -> bool {
    s.len() >= suffix.len() && s.subrange(s.len() - suffix.len(), s.len() as int) == suffix
}

proof fn lemma_setting_fields(name: Seq<char>, description: Seq<char>, sensitive: bool)
    ensures
        field(env_setting(name, description, sensitive), "name"@) == Some(Json::Str(name)),
        field(env_setting(name, description, sensitive), "sensitive"@) == if sensitive {
            Some(Json::Bool(true))
        } else {
            None
        },
        field(env_setting(name, description, sensitive), "required"@) == Some(Json::Bool(false)),
{
    reveal_strlit("name");
    reveal_strlit("description");
    reveal_strlit("sensitive");
    reveal_strlit("required");
    assert("name"@.len() == 4 && "description"@.len() == 11 && "sensitive"@.len() == 9
        && "required"@.len() == 8);
    let e = env_setting(name, description, sensitive)->Object_0;
    lemma_obj_get_at(e, "name"@, 0);
    if sensitive {
        lemma_obj_get_at(e, "sensitive"@, 2);
        lemma_obj_get_at(e, "required"@, 3);
    } else {
        lemma_obj_get_absent(e, "sensitive"@);
        lemma_obj_get_at(e, "required"@, 2);
    }
}

proof fn lemma_setting_names_api_keys()
    ensures
        !ends_with("OPENCODE_BIN"@, "_API_KEY"@),
        !ends_with("OPENCODE_DEFAULT_MODEL"@, "_API_KEY"@),
        ends_with("OPENAI_API_KEY"@, "_API_KEY"@),
        ends_with("OPENROUTER_API_KEY"@, "_API_KEY"@),
        !ends_with("ANIMUS_BIN"@, "_API_KEY"@),
{
    reveal_strlit("_API_KEY");
    reveal_strlit("OPENCODE_BIN");
    reveal_strlit("OPENCODE_DEFAULT_MODEL");
    reveal_strlit("OPENAI_API_KEY");
    reveal_strlit("OPENROUTER_API_KEY");
    reveal_strlit("ANIMUS_BIN");
    assert("OPENCODE_BIN"@.subrange(4, 12)[0] != "_API_KEY"@[0]);
    assert("OPENCODE_DEFAULT_MODEL"@.subrange(14, 22)[0] != "_API_KEY"@[0]);
    assert("OPENAI_API_KEY"@.subrange(6, 14) =~= "_API_KEY"@);
    assert("OPENROUTER_API_KEY"@.subrange(10, 18) =~= "_API_KEY"@);
    assert("ANIMUS_BIN"@.subrange(2, 10)[0] != "_API_KEY"@[0]);
}

/// The plugin manifest names the package, is of kind `provider`, and lists
/// five environment settings, none required, of which exactly those whose
/// name ends in `_API_KEY` are marked sensitive.
pub proof fn law_plugin_manifest_settings(package: PackageInfo, protocol_version: Json)
    ensures
        field(spec_plugin_manifest(package, protocol_version), "name"@) == Some(
            Json::Str(package.name@),
        ),
        field(spec_plugin_manifest(package, protocol_version), "version"@) == Some(
            Json::Str(package.version@),
        ),
        field(spec_plugin_manifest(package, protocol_version), "plugin_kind"@) == Some(
            Json::Str("provider"@),
        ),
        field(spec_plugin_manifest(package, protocol_version), "env_required"@) matches Some(
            Json::Array(settings),
        ) && settings.len() == 5 && forall|i: int|
            #![trigger settings[i]]
            0 <= i < settings.len() ==> (field(settings[i], "name"@) matches Some(Json::Str(name))
                && field(settings[i], "sensitive"@) == if ends_with(name, "_API_KEY"@) {
                Some(Json::Bool(true))
            } else {
                None
            } && field(settings[i], "required"@) == Some(Json::Bool(false))),
{
    reveal_strlit("name");
    reveal_strlit("version");
    reveal_strlit("plugin_kind");
    reveal_strlit("description");
    reveal_strlit("protocol_version");
    reveal_strlit("capabilities");
    reveal_strlit("env_required");
    assert("name"@.len() == 4 && "version"@.len() == 7 && "plugin_kind"@.len() == 11
        && "description"@.len() == 11 && "protocol_version"@.len() == 16
        && "capabilities"@.len() == 12 && "env_required"@.len() == 12);
    assert("capabilities"@[0] != "env_required"@[0]);
    assert("plugin_kind"@[0] != "description"@[0]);
    let top = spec_plugin_manifest(package, protocol_version)->Object_0;
    lemma_obj_get_at(top, "name"@, 0);
    lemma_obj_get_at(top, "version"@, 1);
    lemma_obj_get_at(top, "plugin_kind"@, 2);
    lemma_obj_get_at(top, "env_required"@, 6);
    let settings = spec_env_settings();
    lemma_setting_names_api_keys();
    assert forall|i: int| 0 <= i < settings.len() implies (field(#[trigger] settings[i], "name"@) matches Some(
        Json::Str(name),
    ) && field(settings[i], "sensitive"@) == if ends_with(name, "_API_KEY"@) {
        Some(Json::Bool(true))
    } else {
        None
    } && field(settings[i], "required"@) == Some(Json::Bool(false))) by {
        if i == 0 {
            lemma_setting_fields(
                "OPENCODE_BIN"@,
                "Override the OpenCode CLI binary (default `opencode`). Driven in ACP mode via the `acp` subcommand."@,
                false,
            );
        } else if i == 1 {
            lemma_setting_fields(
                "OPENCODE_DEFAULT_MODEL"@,
                "Fallback model used when an agent/run request omits a model."@,
                false,
            );
        } else if i == 2 {
            lemma_setting_fields(
                "OPENAI_API_KEY"@,
                "API key for OpenAI-compatible models routed through OpenCode."@,
                true,
            );
        } else if i == 3 {
            lemma_setting_fields(
                "OPENROUTER_API_KEY"@,
                "OpenRouter API key used by some OpenCode providers."@,
                true,
            );
        } else {
            lemma_setting_fields(
                "ANIMUS_BIN"@,
                "Path to the `animus` binary used for the approve-hook approval gate (default: resolved on PATH)."@,
                false,
            );
        }
    }
}

} // verus!
