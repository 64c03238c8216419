use vstd::prelude::*;

use crate::config::OpenCodeConfig;
use crate::json::{
    entry_models_of, lemma_entry_models_ext, lemma_entry_models_of, model_of, obj_get, object_get,
    opt_model, str_of, Json, JsonValue,
};

verus! {

/// The fields of an agent run request that the provider reads.
///
/// `env` and `extras` list the entries of the request's maps in the order in
/// which the host walked them; `cwd` and `project_root` hold the bytes of the
/// paths.
pub struct AgentRequest {
    pub session_id: Option<String>,
    pub prompt: String,
    pub cwd: Vec<u8>,
    pub project_root: Option<Vec<u8>>,
    pub model: Option<String>,
    pub system_prompt: Option<String>,
    pub permission_mode: Option<String>,
    pub timeout_secs: Option<u64>,
    pub env: Vec<(String, String)>,
    pub mcp_servers: Option<JsonValue>,
    pub runtime_contract: Option<JsonValue>,
    pub extras: Vec<(String, JsonValue)>,
}

/// What the provider hands to the session backend to start or resume a session.
pub struct SessionPlan {
    pub tool: String,
    pub model: String,
    pub prompt: String,
    pub cwd: Vec<u8>,
    pub project_root: Option<Vec<u8>>,
    pub mcp_endpoint: Option<String>,
    pub permission_mode: Option<String>,
    pub timeout_secs: Option<u64>,
    pub env_vars: Vec<(String, String)>,
    pub extras: JsonValue,
}

/// The tool under which every session is started.
pub open spec fn spec_tool() -> Seq<char> {
    "opencode"@
}

/// The key under which a run's runtime contract joins its extras.
pub open spec fn spec_contract_key() -> Seq<char> {
    "runtime_contract"@
}

/// The model a session runs: the request's own, else the configured default.
pub open spec fn spec_session_model(config: OpenCodeConfig, request: AgentRequest) -> Seq<char> {
    match request.model {
        Some(m) => m@,
        None => config.default_model@,
    }
}

/// The prompt a session receives: the system prompt, a blank line and the
/// prompt, or the prompt alone.
pub open spec fn spec_session_prompt(request: AgentRequest) -> Seq<char> {
    match request.system_prompt {
        Some(s) => s@ + "\n\n"@ + request.prompt@,
        None => request.prompt@,
    }
}

/// The MCP endpoint named by the request's `mcp_servers` document: the string
/// itself, or in an object the string under `endpoint` or, where no
/// `endpoint` entry exists, under `url`.
pub open spec fn spec_mcp_endpoint(v: Json) -> Option<Seq<char>> {
    match v {
        Json::Str(s) => Some(s),
        Json::Object(entries) => match obj_get(entries, "endpoint"@) {
            Some(e) => str_of(e),
            None => match obj_get(entries, "url"@) {
                Some(u) => str_of(u),
                None => None,
            },
        },
        _ => None,
    }
}

/// Whether some entry carries `key`.
pub open spec fn has_key(entries: Seq<(Seq<char>, Json)>, key: Seq<char>) -> bool {
    exists|i: int| 0 <= i < entries.len() && #[trigger] entries[i].0 == key
}

/// The entries with `value` set under `key`: every entry with that key takes
/// the value, and where there is none a new entry is added at the end.
pub open spec fn set_entry(entries: Seq<(Seq<char>, Json)>, key: Seq<char>, value: Json) -> Seq<
    (Seq<char>, Json),
> {
    if has_key(entries, key) {
        entries.map_values(|p: (Seq<char>, Json)| if p.0 == key { (key, value) } else { p })
    } else {
        entries.push((key, value))
    }
}

/// The extras document of a session: with no extras, the runtime contract or
/// an empty object; otherwise the extras as an object, with the runtime
/// contract (if any) set under `runtime_contract`.
pub open spec fn spec_session_extras(extras: Seq<(Seq<char>, Json)>, contract: Option<Json>) -> Json {
    if extras.len() == 0 {
        match contract {
            Some(c) => c,
            None => Json::Object(Seq::empty()),
        }
    } else {
        match contract {
            Some(c) => Json::Object(set_entry(extras, spec_contract_key(), c)),
            None => Json::Object(extras),
        }
    }
}

/// No key occurs twice among the environment entries (as in the map that the
/// host's request holds).
pub open spec fn distinct_env_keys(pairs: Seq<(String, String)>) -> bool {
    forall|i: int, j: int|
        #![trigger pairs[i], pairs[j]]
        0 <= i < j < pairs.len() ==> pairs[i].0@ != pairs[j].0@
}

/// No key occurs twice among the entries of an object.
pub open spec fn distinct_keys(entries: Seq<(Seq<char>, Json)>) -> bool {
    forall|i: int, j: int|
        #![trigger entries[i], entries[j]]
        0 <= i < j < entries.len() ==> entries[i].0 != entries[j].0
}

/// Setting a value under a key keeps the keys of an object distinct.
pub proof fn law_set_entry_keeps_keys_distinct(entries: Seq<(Seq<char>, Json)>, key: Seq<char>, value: Json)
    requires
        distinct_keys(entries),
    ensures
        distinct_keys(set_entry(entries, key, value)),
{
    let r = set_entry(entries, key, value);
    if has_key(entries, key) {
        let f = |p: (Seq<char>, Json)| if p.0 == key { (key, value) } else { p };
        assert(r == entries.map_values(f));
        assert forall|i: int| 0 <= i < r.len() implies #[trigger] r[i].0 == entries[i].0 by {
            assert(r[i] == f(entries[i]));
        }
        assert forall|i: int, j: int| 0 <= i < j < r.len() implies #[trigger] r[i].0 != #[trigger] r[j].0 by {
            assert(r[i].0 == entries[i].0);
            assert(r[j].0 == entries[j].0);
            assert(entries[i].0 != entries[j].0);
        }
    } else {
        assert forall|i: int, j: int| 0 <= i < j < r.len() implies #[trigger] r[i].0 != #[trigger] r[j].0 by {
            if j == entries.len() {
                assert(r[i] == entries[i]);
                if entries[i].0 == key {
                    assert(has_key(entries, key));
                }
            } else {
                assert(r[i] == entries[i]);
                assert(r[j] == entries[j]);
            }
        }
    }
}

/// With extras whose keys are distinct, the session extras are an object whose
/// keys are distinct.
pub proof fn law_session_extras_keys_distinct(extras: Seq<(Seq<char>, Json)>, contract: Option<Json>)
    requires
        distinct_keys(extras),
        extras.len() > 0,
    ensures
        spec_session_extras(extras, contract) matches Json::Object(e) && distinct_keys(e),
{
    match contract {
        Some(c) => law_set_entry_keeps_keys_distinct(extras, spec_contract_key(), c),
        None => {},
    }
}

/// Whether two lists of string pairs hold the same texts in the same order.
pub open spec fn same_pairs(a: Seq<(String, String)>, b: Seq<(String, String)>) -> bool {
    &&& a.len() == b.len()
    &&& forall|i: int| 0 <= i < a.len() ==> #[trigger] a[i].0@ == b[i].0@ && a[i].1@ == b[i].1@
}

/// The session plan for `request` under `config`, in full.
pub open spec fn plan_matches(plan: SessionPlan, config: OpenCodeConfig, request: AgentRequest) -> bool {
    &&& plan.tool@ == spec_tool()
    &&& plan.model@ == spec_session_model(config, request)
    &&& plan.prompt@ == spec_session_prompt(request)
    &&& plan.cwd@ == request.cwd@
    &&& match request.project_root {
        Some(p) => plan.project_root is Some && plan.project_root->Some_0@ == p@,
        None => plan.project_root is None,
    }
    &&& match request.mcp_servers {
        Some(v) => match plan.mcp_endpoint {
            Some(e) => spec_mcp_endpoint(v@) == Some(e@),
            None => spec_mcp_endpoint(v@) is None,
        },
        None => plan.mcp_endpoint is None,
    }
    &&& plan.permission_mode == request.permission_mode
    &&& plan.timeout_secs == request.timeout_secs
    &&& same_pairs(plan.env_vars@, request.env@)
    &&& plan.extras@ == spec_session_extras(
        entry_models_of(request.extras@),
        opt_model(request.runtime_contract),
    )
}

/// The MCP endpoint that a `mcp_servers` document names, if any.
pub fn extract_mcp_endpoint(value: &JsonValue) -> (r: Option<String>)
    ensures
        match r {
            Some(e) => spec_mcp_endpoint(value@) == Some(e@),
            None => spec_mcp_endpoint(value@) is None,
        },
{
    match value {
        JsonValue::Str(s) => Some(s.clone()),
        JsonValue::Object(entries) => {
            let endpoint_key = "endpoint".to_string();
            let url_key = "url".to_string();
            let found = match object_get(entries, &endpoint_key) {
                Some(v) => Some(v),
                None => object_get(entries, &url_key),
            };
            match found {
                Some(v) => match v.as_str() {
                    Some(s) => Some(s.clone()),
                    None => None,
                },
                None => None,
            }
        },
        _ => None,
    }
}

/// A copy of the bytes of a path.
pub(crate) fn copy_bytes(bytes: &Vec<u8>) -> (r: Vec<u8>)
    ensures
        r@ == bytes@,
{
    let mut out: Vec<u8> = Vec::new();
    let mut i: usize = 0;
    while i < bytes.len()
        invariant
            0 <= i <= bytes.len(),
            out@ == bytes@.take(i as int),
        decreases bytes.len() - i,
    {
        out.push(bytes[i]);
        i = i + 1;
        proof {
            assert(out@ =~= bytes@.take(i as int));
        }
    }
    assert(bytes@.take(bytes@.len() as int) =~= bytes@);
    out
}

/// A copy of the environment entries, pair for pair.
pub(crate) fn copy_pairs(pairs: &Vec<(String, String)>) -> (r: Vec<(String, String)>)
    ensures
        same_pairs(r@, pairs@),
{
    let mut out: Vec<(String, String)> = Vec::new();
    let mut i: usize = 0;
    while i < pairs.len()
        invariant
            0 <= i <= pairs.len(),
            out@.len() == i,
            forall|j: int|
                0 <= j < i ==> #[trigger] out@[j].0@ == pairs@[j].0@ && out@[j].1@ == pairs@[j].1@,
        decreases pairs.len() - i,
    {
        let k = pairs[i].0.clone();
        let v = pairs[i].1.clone();
        out.push((k, v));
        i = i + 1;
    }
    out
}

/// The session extras: `extras` as an object with `runtime_contract` set to
/// the contract, or, with no extras, the contract itself or an empty object.
pub fn merge_extras(extras: &Vec<(String, JsonValue)>, runtime_contract: &Option<JsonValue>) -> (r:
    JsonValue)
    ensures
        r@ == spec_session_extras(entry_models_of(extras@), opt_model(*runtime_contract)),
        distinct_keys(entry_models_of(extras@)) && extras@.len() > 0 ==> (r@ matches Json::Object(
            e,
        ) && distinct_keys(e)),
{
    let ghost m = entry_models_of(extras@);
    proof {
        lemma_entry_models_of(extras@);
        if distinct_keys(m) && extras@.len() > 0 {
            law_session_extras_keys_distinct(m, opt_model(*runtime_contract));
        }
    }
    proof {
        lemma_entry_models_of(extras@);
    }
    if extras.len() == 0 {
        return match runtime_contract {
            Some(c) => c.deep_clone(),
            None => JsonValue::empty_object(),
        };
    }
    let key = "runtime_contract".to_string();
    let mut out: Vec<(String, JsonValue)> = Vec::new();
    let mut replaced = false;
    let mut i: usize = 0;
    while i < extras.len()
        invariant
            0 <= i <= extras.len(),
            key@ == spec_contract_key(),
            m == entry_models_of(extras@),
            m.len() == extras@.len(),
            forall|j: int| 0 <= j < m.len() ==> #[trigger] m[j] == (extras@[j].0@, model_of(extras@[j].1)),
            out@.len() == i,
            replaced <==> exists|j: int| 0 <= j < i && #[trigger] m[j].0 == key@,
            forall|j: int|
                #![trigger out@[j]]
                0 <= j < i ==> out@[j].0@ == m[j].0 && model_of(out@[j].1) == (
                match *runtime_contract {
                    Some(c) => if m[j].0 == key@ { c@ } else { m[j].1 },
                    None => m[j].1,
                }),
        decreases extras.len() - i,
    {
        let k = extras[i].0.clone();
        let is_key = extras[i].0 == key;
        let v = match runtime_contract {
            Some(c) => if is_key { c.deep_clone() } else { extras[i].1.deep_clone() },
            None => extras[i].1.deep_clone(),
        };
        if is_key {
            replaced = true;
        }
        proof {
            assert(m[i as int].0 == extras@[i as int].0@);
            assert(k@ == m[i as int].0);
            assert(model_of(v) == match *runtime_contract {
                Some(c) => if m[i as int].0 == key@ { c@ } else { m[i as int].1 },
                None => m[i as int].1,
            });
        }
        let ghost prev = out@;
        out.push((k, v));
        proof {
            assert(forall|j: int| 0 <= j < i ==> out@[j] == prev[j]);
        }
        i = i + 1;
    }
    match runtime_contract {
        Some(c) => {
            if !replaced {
                let k2 = "runtime_contract".to_string();
                let c2 = c.deep_clone();
                out.push((k2, c2));
                proof {
                    assert(!has_key(m, key@));
                    lemma_entry_models_ext(out@, m.push((key@, c@)));
                }
            } else {
                proof {
                    assert(has_key(m, key@));
                    let f = |p: (Seq<char>, Json)| if p.0 == key@ { (key@, c@) } else { p };
                    lemma_entry_models_ext(out@, m.map_values(f));
                }
            }
        },
        None => {
            proof {
                lemma_entry_models_ext(out@, m);
            }
        },
    }
    JsonValue::Object(out)
}

/// Looking a key up in entries with a value set under it gives that value,
/// and any other key gives what it gave before.
pub proof fn law_set_entry_lookup(entries: Seq<(Seq<char>, Json)>, key: Seq<char>, value: Json, other: Seq<char>)
    requires
        other != key,
    ensures
        obj_get(set_entry(entries, key, value), key) == Some(value),
        obj_get(set_entry(entries, key, value), other) == obj_get(entries, other),
    decreases entries.len(),
{
    let r = set_entry(entries, key, value);
    if entries.len() == 0 {
        assert(!has_key(entries, key));
        assert(r =~= seq![(key, value)]);
        assert(r.drop_first().len() == 0);
    } else {
        let rest = entries.drop_first();
        law_set_entry_lookup(rest, key, value, other);
        if has_key(entries, key) {
            let f = |p: (Seq<char>, Json)| if p.0 == key { (key, value) } else { p };
            assert(r == entries.map_values(f));
            if entries[0].0 == key {
                assert(r[0] == (key, value));
            } else {
                let i: int = choose|i: int| 0 <= i < entries.len() && #[trigger] entries[i].0 == key;
                assert(rest[i - 1].0 == key);
                assert(has_key(rest, key));
                assert(r.drop_first() =~= set_entry(rest, key, value));
            }
            if entries[0].0 == key {
                assert(r.drop_first() =~= rest.map_values(f));
                if has_key(rest, key) {
                    assert(r.drop_first() =~= set_entry(rest, key, value));
                } else {
                    assert(rest.map_values(f) =~= rest);
                    assert(obj_get(r, other) == obj_get(r.drop_first(), other));
                }
            }
        } else {
            assert(!has_key(rest, key)) by {
                if has_key(rest, key) {
                    let i: int = choose|i: int| 0 <= i < rest.len() && #[trigger] rest[i].0 == key;
                    assert(entries[i + 1].0 == key);
                }
            }
            assert(r.drop_first() =~= set_entry(rest, key, value));
            assert(entries[0].0 != key);
        }
    }
}

/// The run's runtime contract can be read back from the session extras: with
/// extras, under `runtime_contract` (and every other extra keeps its value);
/// without extras, the extras are the contract itself.
pub proof fn law_contract_in_extras(extras: Seq<(Seq<char>, Json)>, contract: Json, other: Seq<char>)
    requires
        other != spec_contract_key(),
    ensures
        extras.len() == 0 ==> spec_session_extras(extras, Some(contract)) == contract,
        extras.len() > 0 ==> (spec_session_extras(extras, Some(contract)) matches Json::Object(e)
            && obj_get(e, spec_contract_key()) == Some(contract) && obj_get(e, other) == obj_get(
            extras,
            other,
        )),
{
    law_set_entry_lookup(extras, spec_contract_key(), contract, other);
}

/// Without a runtime contract, the session extras of a request with extras
/// are an object holding every extra: as many entries, and every key looks up
/// what it looked up among the extras.
pub proof fn law_extras_kept_without_contract(extras: Seq<(Seq<char>, Json)>, key: Seq<char>)
    requires
        extras.len() > 0,
    ensures
        spec_session_extras(extras, None) matches Json::Object(e) && e.len() == extras.len() && obj_get(
            e,
            key,
        ) == obj_get(extras, key),
{
}

/// With a runtime contract, the session extras of a request with extras hold
/// every extra under another key unchanged, the contract under
/// `runtime_contract`, and one entry more than the extras exactly when none of
/// them carried that key.
pub proof fn law_extras_with_contract(extras: Seq<(Seq<char>, Json)>, contract: Json, key: Seq<char>)
    requires
        extras.len() > 0,
        key != spec_contract_key(),
    ensures
        spec_session_extras(extras, Some(contract)) matches Json::Object(e) && obj_get(e, key)
            == obj_get(extras, key) && obj_get(e, spec_contract_key()) == Some(contract) && e.len()
            == if has_key(extras, spec_contract_key()) {
            extras.len()
        } else {
            extras.len() + 1
        },
{
    law_set_entry_lookup(extras, spec_contract_key(), contract, key);
}

/// A session plan runs the tool `opencode` with the request's model where it
/// names one and the configured default otherwise; its prompt is the
/// request's prompt, preceded by the system prompt and a blank line where the
/// request has one; it keeps the request's working directory, permission
/// mode, timeout and environment (the same pairs in the same order).
pub proof fn law_plan_from_request(plan: SessionPlan, config: OpenCodeConfig, request: AgentRequest)
    requires
        plan_matches(plan, config, request),
    ensures
        plan.tool@ == "opencode"@,
        request.model matches Some(m) ==> plan.model@ == m@,
        request.model is None ==> plan.model@ == config.default_model@,
        request.system_prompt is None ==> plan.prompt@ == request.prompt@,
        request.system_prompt matches Some(sp) ==> plan.prompt@.len() == sp@.len() + 2
            + request.prompt@.len() && plan.prompt@.subrange(0, sp@.len() as int) == sp@
            && plan.prompt@[sp@.len() as int] == '\n' && plan.prompt@[sp@.len() as int + 1] == '\n'
            && plan.prompt@.subrange(sp@.len() as int + 2, plan.prompt@.len() as int) == request.prompt@,
        plan.cwd@ == request.cwd@,
        plan.permission_mode == request.permission_mode,
        plan.timeout_secs == request.timeout_secs,
        plan.env_vars@.len() == request.env@.len(),
        forall|i: int|
            0 <= i < request.env@.len() ==> (#[trigger] plan.env_vars@[i]).0@ == request.env@[i].0@
                && plan.env_vars@[i].1@ == request.env@[i].1@,
{
    reveal_strlit("\n\n");
    match request.system_prompt {
        Some(sp) => {
            let p = plan.prompt@;
            assert(p == sp@ + "\n\n"@ + request.prompt@);
            assert(p.subrange(0, sp@.len() as int) =~= sp@);
            assert(p.subrange(sp@.len() as int + 2, p.len() as int) =~= request.prompt@);
        },
        None => {},
    }
}

/// The MCP endpoint of a request: a string names itself; in an object, a
/// string under `endpoint` is the endpoint, anything else under `endpoint`
/// names none, and without `endpoint` a string under `url` is the endpoint;
/// any other document names none.
pub proof fn law_mcp_endpoint(v: Json)
    ensures
        v matches Json::Str(s) ==> spec_mcp_endpoint(v) == Some(s),
        v matches Json::Object(e) ==> (obj_get(e, "endpoint"@) matches Some(Json::Str(x))
            ==> spec_mcp_endpoint(v) == Some(x)),
        v matches Json::Object(e) ==> (obj_get(e, "endpoint"@) matches Some(x) ==> (x !is Str
            ==> spec_mcp_endpoint(v) is None)),
        v matches Json::Object(e) ==> (obj_get(e, "endpoint"@) is None ==> spec_mcp_endpoint(v)
            == match obj_get(e, "url"@) {
            Some(Json::Str(u)) => Some(u),
            _ => None,
        }),
        !(v is Str || v is Object) ==> spec_mcp_endpoint(v) is None,
{
}

} // verus!
