//! Property ordering for Tombi's "schema" sorting strategy.
//!
//! These key lists and functions control the order of properties in the
//! generated JSON Schema, so that Tombi's `x-tombi-table-keys-order:
//! "schema"` directive produces the desired key order in formatted TOML
//! files. They run after the house-style key sort, which alphabetizes
//! everything.

use vstd::prelude::*;
use crate::json::{
    keys_distinct, get_value, entry_keys, has_key, lemma_key_index, lemma_get_value_cases,
    lemma_get_value_at, lemma_get_value_push, lemma_get_value_swap_remove,
    Json, JsonMap, JsonValue, key_index, insert_entry, insert_missing, swap_remove_entry, entries_view,
    update_child, with_child, with_inserted, child, lemma_with_child, lemma_entries_view,
};

verus! {

/// Desired root property order of the config (groups related settings,
/// as in the sample config).
pub open spec fn spec_config_toml_key_order() -> Seq<Seq<char>> {
    seq![
        "model"@, "review_model"@, "model_provider"@, "model_context_window"@,
        "model_auto_compact_token_limit"@, "tool_output_token_limit"@,
        "model_reasoning_effort"@, "model_reasoning_summary"@, "model_verbosity"@,
        "model_supports_reasoning_summaries"@, "developer_instructions"@, "instructions"@,
        "compact_prompt"@, "experimental_instructions_file"@,
        "experimental_compact_prompt_file"@, "notify"@, "approval_policy"@, "sandbox_mode"@,
        "sandbox_workspace_write"@, "shell_environment_policy"@, "history"@, "file_opener"@,
        "tui"@, "hide_agent_reasoning"@, "show_raw_agent_reasoning"@, "disable_paste_burst"@,
        "windows_wsl_setup_acknowledged"@, "notice"@, "cli_auth_credentials_store"@,
        "chatgpt_base_url"@, "forced_chatgpt_workspace_id"@, "forced_login_method"@,
        "mcp_oauth_credentials_store"@, "project_doc_max_bytes"@,
        "project_doc_fallback_filenames"@, "project_root_markers"@, "tools"@, "features"@,
        "experimental_use_unified_exec_tool"@, "experimental_use_freeform_apply_patch"@,
        "ghost_snapshot"@, "check_for_update_on_startup"@, "mcp_servers"@,
        "model_providers"@, "oss_provider"@, "profile"@, "profiles"@, "projects"@, "otel"@
    ]
}

/// Desired property order of an MCP server's configuration: transport
/// identifiers, then transport-specific fields, then shared fields.
pub open spec fn spec_mcp_server_config_key_order() -> Seq<Seq<char>> {
    seq![
        "command"@, "url"@, "args"@, "env"@, "env_vars"@, "cwd"@, "bearer_token_env_var"@,
        "http_headers"@, "env_http_headers"@, "enabled"@, "startup_timeout_sec"@,
        "tool_timeout_sec"@, "enabled_tools"@, "disabled_tools"@
    ]
}

/// Desired property order of the notice table: access warnings, rate
/// limit, migration prompts, then the migrations table.
pub open spec fn spec_notice_key_order() -> Seq<Seq<char>> {
    seq![
        "hide_full_access_warning"@, "hide_world_writable_warning"@,
        "hide_rate_limit_model_nudge"@, "hide_gpt5_1_migration_prompt"@,
        "hide_gpt-5.1-codex-max_migration_prompt"@, "model_migrations"@
    ]
}

/// The views of a list of keys.
pub open spec fn key_views(v: Seq<&str>) -> Seq<Seq<char>> {
    v.map_values(|s: &str| s@)
}

/// Desired root property order of the config.
pub fn config_toml_key_order() -> (v: Vec<&'static str>)
    ensures
        key_views(v@) == spec_config_toml_key_order(),
{
    let v: Vec<&'static str> = vec![
        "model", "review_model", "model_provider", "model_context_window",
        "model_auto_compact_token_limit", "tool_output_token_limit",
        "model_reasoning_effort", "model_reasoning_summary", "model_verbosity",
        "model_supports_reasoning_summaries", "developer_instructions", "instructions",
        "compact_prompt", "experimental_instructions_file",
        "experimental_compact_prompt_file", "notify", "approval_policy", "sandbox_mode",
        "sandbox_workspace_write", "shell_environment_policy", "history", "file_opener",
        "tui", "hide_agent_reasoning", "show_raw_agent_reasoning", "disable_paste_burst",
        "windows_wsl_setup_acknowledged", "notice", "cli_auth_credentials_store",
        "chatgpt_base_url", "forced_chatgpt_workspace_id", "forced_login_method",
        "mcp_oauth_credentials_store", "project_doc_max_bytes",
        "project_doc_fallback_filenames", "project_root_markers", "tools", "features",
        "experimental_use_unified_exec_tool", "experimental_use_freeform_apply_patch",
        "ghost_snapshot", "check_for_update_on_startup", "mcp_servers",
        "model_providers", "oss_provider", "profile", "profiles", "projects", "otel",
    ];
    assert(key_views(v@) =~= spec_config_toml_key_order());
    v
}

/// Desired property order of an MCP server's configuration.
pub fn mcp_server_config_key_order() -> (v: Vec<&'static str>)
    ensures
        key_views(v@) == spec_mcp_server_config_key_order(),
{
    let v: Vec<&'static str> = vec![
        "command", "url", "args", "env", "env_vars", "cwd", "bearer_token_env_var",
        "http_headers", "env_http_headers", "enabled", "startup_timeout_sec",
        "tool_timeout_sec", "enabled_tools", "disabled_tools",
    ];
    assert(key_views(v@) =~= spec_mcp_server_config_key_order());
    v
}

/// Desired property order of the notice table.
pub fn notice_key_order() -> (v: Vec<&'static str>)
    ensures
        key_views(v@) == spec_notice_key_order(),
{
    let v: Vec<&'static str> = vec![
        "hide_full_access_warning", "hide_world_writable_warning",
        "hide_rate_limit_model_nudge", "hide_gpt5_1_migration_prompt",
        "hide_gpt-5.1-codex-max_migration_prompt", "model_migrations",
    ];
    assert(key_views(v@) =~= spec_notice_key_order());
    v
}

/// First pass: for each key of `order` in turn, the entry it names moves
/// from the remaining entries (removed by swapping) to the end of the
/// ordered ones. Returns (ordered, remaining).
pub open spec fn reorder_pass(es: Seq<(Seq<char>, Json)>, order: Seq<Seq<char>>) -> (
    Seq<(Seq<char>, Json)>,
    Seq<(Seq<char>, Json)>,
)
    decreases order.len(),
{
    if order.len() == 0 {
        (Seq::empty(), es)
    } else {
        let (o, r) = reorder_pass(es, order.drop_last());
        let k = order.last();
        match key_index(r, k) {
            Some(i) => (insert_entry(o, r[i].0, r[i].1), swap_remove_entry(r, k)),
            None => (o, r),
        }
    }
}

/// The entries of `es` with the keys of `order` first, in that order.
pub open spec fn reorder_entries(es: Seq<(Seq<char>, Json)>, order: Seq<Seq<char>>) -> Seq<
    (Seq<char>, Json),
> {
    let (o, r) = reorder_pass(es, order);
    insert_missing(o, r)
}

/// `j` with its entries reordered, if it is an object.
pub open spec fn reorder_object(j: Json, order: Seq<Seq<char>>) -> Json {
    match j {
        Json::Object(es) => Json::Object(reorder_entries(es, order)),
        _ => j,
    }
}

/// Reorders the entries of `props`: the keys of `order` first, in that
/// order, then the other entries.
pub fn reorder_by_key_order(props: &mut JsonMap, order: &Vec<&str>)
    ensures
        final(props)@ == reorder_entries(old(props)@, key_views(order@)),
{
    let ghost orig = props@;
    let ghost ord = key_views(order@);
    let mut ordered = JsonMap::new();
    let mut i: usize = 0;
    while i < order.len()
        invariant
            i <= order@.len(),
            ord == key_views(order@),
            (ordered@, props@) == reorder_pass(orig, ord.take(i as int)),
        decreases order.len() - i,
    {
        proof {
            assert(ord.take(i + 1).drop_last() =~= ord.take(i as int));
            assert(ord.take(i + 1).last() == order@[i as int]@);
        }
        match props.remove_entry(order[i]) {
            Some(e) => {
                ordered.insert(e.0, e.1);
            },
            None => {},
        }
        i = i + 1;
    }
    assert(ord.take(order.len() as int) =~= ord);
    let mut taken = JsonMap::new();
    std::mem::swap(props, &mut taken);
    let mut rest = taken.into_entries();
    let ghost rest0 = rest@;
    let ghost o0 = ordered@;
    let n = rest.len();
    let mut j: usize = 0;
    proof {
        lemma_entries_view(rest0);
        assert(entries_view(rest0).take(0) =~= Seq::<(Seq<char>, Json)>::empty());
    }
    while rest.len() > 0
        invariant
            n == rest0.len(),
            j + rest@.len() == n,
            rest@ == rest0.skip(j as int),
            entries_view(rest0).len() == rest0.len(),
            forall|m: int|
                0 <= m < rest0.len() ==> #[trigger] entries_view(rest0)[m] == (
                    rest0[m].0@,
                    rest0[m].1@,
                ),
            ordered@ == insert_missing(o0, entries_view(rest0).take(j as int)),
        decreases rest.len(),
    {
        let e = rest.remove(0);
        proof {
            assert(rest0.skip(j as int)[0] == rest0[j as int]);
            assert(rest0.skip(j as int).drop_first() =~= rest0.skip(j + 1));
            let t = entries_view(rest0).take(j + 1);
            assert(t.drop_last() =~= entries_view(rest0).take(j as int));
            assert(t.last() == (e.0@, e.1@));
        }
        if !ordered.contains_key(e.0.as_str()) {
            ordered.insert(e.0, e.1);
        }
        j = j + 1;
    }
    assert(entries_view(rest0).take(n as int) =~= entries_view(rest0));
    *props = ordered;
}

/// Reorders the properties of `schema` (an object), if it has an object
/// `properties`, to `order`.
fn reorder_properties_of(schema: &mut JsonValue, order: &Vec<&str>)
    ensures
        final(schema)@ == update_child(
            old(schema)@,
            "properties"@,
            |p: Json| reorder_object(p, key_views(order@)),
        ),
{
    let ghost j = schema@;
    match schema.take_child("properties") {
        Some(mut props) => {
            proof {
                lemma_with_child(j, "properties"@, Json::Null, props@);
            }
            match &mut props {
                JsonValue::Object(m) => {
                    reorder_by_key_order(m, order);
                },
                _ => {},
            }
            proof {
                lemma_with_child(j, "properties"@, Json::Null, props@);
            }
            schema.put_child("properties", props);
        },
        None => {},
    }
}

/// The config with its root properties in the desired order.
pub open spec fn spec_reorder_config_toml_properties(j: Json) -> Json {
    update_child(j, "properties"@, |p: Json| reorder_object(p, spec_config_toml_key_order()))
}

/// Reorders the config's root properties for Tombi's "schema" sorting
/// strategy, matching the sample config's groupings. Must run after the
/// house-style key sort, which alphabetizes everything.
pub fn reorder_config_toml_properties(schema: &mut JsonValue)
    ensures
        final(schema)@ == spec_reorder_config_toml_properties(old(schema)@),
{
    let order = config_toml_key_order();
    reorder_properties_of(schema, &order);
}


/// The schema with the MCP server configuration's properties in the
/// desired order.
pub open spec fn spec_reorder_mcp_server_config_properties(j: Json) -> Json {
    update_child(
        j,
        "definitions"@,
        |d: Json|
            update_child(
                d,
                "McpServerConfig"@,
                |m: Json|
                    update_child(
                        m,
                        "properties"@,
                        |p: Json| reorder_object(p, spec_mcp_server_config_key_order()),
                    ),
            ),
    )
}

/// Reorders the properties of the `McpServerConfig` definition for Tombi's
/// "schema" sorting strategy. Must run after the house-style key sort.
pub fn reorder_mcp_server_config_properties(schema: &mut JsonValue)
    ensures
        final(schema)@ == spec_reorder_mcp_server_config_properties(old(schema)@),
{
    let order = mcp_server_config_key_order();
    let ghost j = schema@;
    match schema.take_child("definitions") {
        Some(mut defs) => {
            let ghost d = defs@;
            proof {
                lemma_with_child(j, "definitions"@, Json::Null, d);
            }
            match defs.take_child("McpServerConfig") {
                Some(mut mcp) => {
                    proof {
                        lemma_with_child(d, "McpServerConfig"@, Json::Null, mcp@);
                    }
                    reorder_properties_of(&mut mcp, &order);
                    proof {
                        lemma_with_child(d, "McpServerConfig"@, Json::Null, mcp@);
                    }
                    defs.put_child("McpServerConfig", mcp);
                },
                None => {},
            }
            proof {
                lemma_with_child(j, "definitions"@, Json::Null, defs@);
            }
            schema.put_child("definitions", defs);
        },
        None => {},
    }
}

/// The notice properties after reordering, with ascending key order for
/// the `model_migrations` table.
pub open spec fn notice_properties(p: Json) -> Json {
    update_child(
        reorder_object(p, spec_notice_key_order()),
        "model_migrations"@,
        |mm: Json| with_inserted(mm, "x-tombi-table-keys-order"@, Json::Str("ascending"@)),
    )
}

/// The schema with the `Notice` definition's properties in the desired
/// order.
pub open spec fn spec_reorder_notice_properties(j: Json) -> Json {
    update_child(
        j,
        "definitions"@,
        |d: Json|
            update_child(
                d,
                "Notice"@,
                |n: Json| update_child(n, "properties"@, |p: Json| notice_properties(p)),
            ),
    )
}

/// Reorders the properties of the `Notice` definition for Tombi's "schema"
/// sorting strategy, and gives its `model_migrations` table ascending key
/// order. Must run after the house-style key sort.
pub fn reorder_notice_properties(schema: &mut JsonValue)
    ensures
        final(schema)@ == spec_reorder_notice_properties(old(schema)@),
{
    let order = notice_key_order();
    let ghost j = schema@;
    match schema.take_child("definitions") {
        Some(mut defs) => {
            let ghost d = defs@;
            proof {
                lemma_with_child(j, "definitions"@, Json::Null, d);
            }
            match defs.take_child("Notice") {
                Some(mut notice) => {
                    let ghost n = notice@;
                    proof {
                        lemma_with_child(d, "Notice"@, Json::Null, n);
                    }
                    match notice.take_child("properties") {
                        Some(mut props) => {
                            let ghost p0 = props@;
                            proof {
                                lemma_with_child(n, "properties"@, Json::Null, p0);
                            }
                            match &mut props {
                                JsonValue::Object(m) => {
                                    reorder_by_key_order(m, &order);
                                },
                                _ => {},
                            }
                            let ghost p1 = props@;
                            assert(p1 == reorder_object(p0, spec_notice_key_order()));
                            match props.take_child("model_migrations") {
                                Some(mut mm) => {
                                    proof {
                                        lemma_with_child(p1, "model_migrations"@, Json::Null, mm@);
                                    }
                                    mm.insert_child(
                                        "x-tombi-table-keys-order".to_owned(),
                                        JsonValue::from_str("ascending"),
                                    );
                                    proof {
                                        lemma_with_child(p1, "model_migrations"@, Json::Null, mm@);
                                    }
                                    props.put_child("model_migrations", mm);
                                },
                                None => {},
                            }
                            proof {
                                lemma_with_child(n, "properties"@, Json::Null, props@);
                            }
                            notice.put_child("properties", props);
                        },
                        None => {},
                    }
                    proof {
                        lemma_with_child(d, "Notice"@, Json::Null, notice@);
                    }
                    defs.put_child("Notice", notice);
                },
                None => {},
            }
            proof {
                lemma_with_child(j, "definitions"@, Json::Null, defs@);
            }
            schema.put_child("definitions", defs);
        },
        None => {},
    }
}

/// The keys of `order` that `es` holds, in the order of `order`.
pub open spec fn present_keys(es: Seq<(Seq<char>, Json)>, order: Seq<Seq<char>>) -> Seq<Seq<char>> {
    order.filter(|k: Seq<char>| has_key(es, k))
}

proof fn lemma_reorder_pass(es: Seq<(Seq<char>, Json)>, order: Seq<Seq<char>>)
    requires
        keys_distinct(es),
        order.no_duplicates(),
    ensures
        ({
            let (o, r) = reorder_pass(es, order);
            &&& keys_distinct(o)
            &&& keys_distinct(r)
            &&& entry_keys(o) == present_keys(es, order)
            &&& o.len() + r.len() == es.len()
            &&& forall|k: Seq<char>| #[trigger] get_value(o, k) == if order.contains(k) {
                get_value(es, k)
            } else {
                None
            }
            &&& forall|k: Seq<char>| #[trigger] get_value(r, k) == if order.contains(k) {
                None
            } else {
                get_value(es, k)
            }
        }),
    decreases order.len(),
{
    reveal(Seq::filter);
    if order.len() == 0 {
        assert(entry_keys(Seq::<(Seq<char>, Json)>::empty()) =~= present_keys(es, order));
    } else {
        let prev = order.drop_last();
        assert(prev.no_duplicates());
        lemma_reorder_pass(es, prev);
        let (o, r) = reorder_pass(es, prev);
        let k = order.last();
        assert(!prev.contains(k)) by {
            if prev.contains(k) {
                let j = choose|j: int| 0 <= j < prev.len() && prev[j] == k;
                assert(order[j] == order[order.len() - 1]);
            }
        }
        assert forall|k2: Seq<char>| order.contains(k2) <==> prev.contains(k2) || k2 == k by {
            if order.contains(k2) {
                let j = choose|j: int| 0 <= j < order.len() && order[j] == k2;
                if j < order.len() - 1 {
                    assert(prev[j] == k2);
                }
            }
            if prev.contains(k2) {
                let j = choose|j: int| 0 <= j < prev.len() && prev[j] == k2;
                assert(order[j] == k2);
            }
            if k2 == k {
                assert(order[order.len() - 1] == k);
            }
        }
        lemma_key_index(r, k);
        lemma_get_value_cases(r, k);
        lemma_get_value_cases(es, k);
        assert(get_value(o, k) is None);
        let p = |kk: Seq<char>| has_key(es, kk);
        assert(present_keys(es, order) == if p(k) {
            present_keys(es, prev).push(k)
        } else {
            present_keys(es, prev)
        });
        match key_index(r, k) {
            Some(i) => {
                let v = r[i].1;
                assert(get_value(r, k) == Some(v));
                assert(get_value(es, k) == Some(v));
                assert(has_key(es, k));
                lemma_get_value_push(o, k, v);
                lemma_get_value_swap_remove(r, k);
                assert(entry_keys(o.push((k, v))) =~= entry_keys(o).push(k));
                assert(has_key(r, k));
            },
            None => {
                assert(get_value(r, k) is None);
                assert(get_value(es, k) is None);
                assert(!has_key(es, k));
            },
        }
    }
}

proof fn lemma_insert_missing_disjoint(o: Seq<(Seq<char>, Json)>, rest: Seq<(Seq<char>, Json)>)
    requires
        keys_distinct(o),
        keys_distinct(rest),
        forall|i: int| 0 <= i < rest.len() ==> get_value(o, #[trigger] rest[i].0) is None,
    ensures
        insert_missing(o, rest) == o + rest,
        keys_distinct(o + rest),
    decreases rest.len(),
{
    if rest.len() == 0 {
        assert(o + rest =~= o);
    } else {
        let d = rest.drop_last();
        let e = rest.last();
        assert(keys_distinct(d));
        assert forall|i: int| 0 <= i < d.len() implies get_value(o, #[trigger] d[i].0) is None by {
            assert(d[i] == rest[i]);
        }
        lemma_insert_missing_disjoint(o, d);
        let o2 = o + d;
        assert(get_value(o, rest[rest.len() - 1].0) is None);
        lemma_get_value_cases(o, e.0);
        assert forall|i: int| 0 <= i < o2.len() implies o2[i].0 != e.0 by {
            if i >= o.len() {
                assert(o2[i] == rest[i - o.len()]);
                assert(rest[i - o.len()].0 != rest[rest.len() - 1].0);
            }
        }
        lemma_get_value_cases(o2, e.0);
        lemma_key_index(o2, e.0);
        lemma_get_value_push(o2, e.0, e.1);
        assert(o2.push(e) =~= o + rest);
    }
}

/// With distinct keys and an order without repeats, reordering keeps every
/// entry (each key keeps its value, none is added or lost) and puts the
/// entries whose keys the order names first, in the order's order.
pub proof fn lemma_reorder_entries(es: Seq<(Seq<char>, Json)>, order: Seq<Seq<char>>)
    requires
        keys_distinct(es),
        order.no_duplicates(),
    ensures
        keys_distinct(reorder_entries(es, order)),
        reorder_entries(es, order).len() == es.len(),
        forall|k: Seq<char>| #[trigger] get_value(reorder_entries(es, order), k) == get_value(es, k),
        entry_keys(reorder_entries(es, order)).take(present_keys(es, order).len() as int)
            == present_keys(es, order),
{
    lemma_reorder_pass(es, order);
    let (o, r) = reorder_pass(es, order);
    assert forall|i: int| 0 <= i < r.len() implies get_value(o, #[trigger] r[i].0) is None by {
        lemma_get_value_at(r, i);
        if order.contains(r[i].0) {
        }
    }
    lemma_insert_missing_disjoint(o, r);
    let res = o + r;
    assert(entry_keys(res).take(o.len() as int) =~= entry_keys(o));
    assert forall|k: Seq<char>| #[trigger] get_value(res, k) == get_value(es, k) by {
        lemma_get_value_cases(res, k);
        lemma_get_value_cases(o, k);
        lemma_get_value_cases(r, k);
        if let Some(v) = get_value(res, k) {
            let i = choose|i: int| 0 <= i < res.len() && res[i].0 == k && res[i].1 == v;
            if i < o.len() {
                assert(res[i] == o[i]);
                lemma_get_value_at(o, i);
            } else {
                assert(res[i] == r[i - o.len()]);
                lemma_get_value_at(r, i - o.len());
            }
        } else {
            if get_value(o, k) is Some {
                let v = get_value(o, k)->0;
                let i = choose|i: int| 0 <= i < o.len() && o[i].0 == k && o[i].1 == v;
                assert(res[i] == o[i]);
            }
            if get_value(r, k) is Some {
                let v = get_value(r, k)->0;
                let i = choose|i: int| 0 <= i < r.len() && r[i].0 == k && r[i].1 == v;
                assert(res[i + o.len()] == r[i]);
            }
        }
    }
}


/// A sequence whose elements each map back to their own index under
/// `slot` has no duplicates.
proof fn lemma_no_duplicates_by_slot(s: Seq<Seq<char>>, slot: spec_fn(Seq<char>) -> int)
    requires
        forall|i: int| 0 <= i < s.len() ==> #[trigger] slot(s[i]) == i,
    ensures
        s.no_duplicates(),
{
    assert forall|i: int, j: int| 0 <= i < s.len() && 0 <= j < s.len() && i != j implies s[i] != s[j] by {
        assert(slot(s[i]) == i);
        assert(slot(s[j]) == j);
    }
}

/// The position of a key in the config order, told apart from the other
/// keys by its length and one of its characters; -1 for other keys.
spec fn config_toml_key_slot(k: Seq<char>) -> int {
    if k.len() == 5 && k[0] == 'm' {
        0
    } else if k.len() == 12 && k[0] == 'r' {
        1
    } else if k.len() == 14 && k[0] == 'm' {
        2
    } else if k.len() == 20 && k[0] == 'm' {
        3
    } else if k.len() == 30 && k[0] == 'm' {
        4
    } else if k.len() == 23 && k[0] == 't' {
        5
    } else if k.len() == 22 && k[0] == 'm' {
        6
    } else if k.len() == 23 && k[0] == 'm' {
        7
    } else if k.len() == 15 && k[6] == 'v' {
        8
    } else if k.len() == 34 && k[0] == 'm' {
        9
    } else if k.len() == 22 && k[0] == 'd' {
        10
    } else if k.len() == 12 && k[0] == 'i' {
        11
    } else if k.len() == 14 && k[0] == 'c' {
        12
    } else if k.len() == 30 && k[0] == 'e' {
        13
    } else if k.len() == 32 && k[0] == 'e' {
        14
    } else if k.len() == 6 && k[4] == 'f' {
        15
    } else if k.len() == 15 && k[0] == 'a' {
        16
    } else if k.len() == 12 && k[0] == 's' {
        17
    } else if k.len() == 23 && k[0] == 's' {
        18
    } else if k.len() == 24 && k[2] == 'e' {
        19
    } else if k.len() == 7 && k[0] == 'h' {
        20
    } else if k.len() == 11 && k[0] == 'f' {
        21
    } else if k.len() == 3 && k[0] == 't' {
        22
    } else if k.len() == 20 && k[0] == 'h' {
        23
    } else if k.len() == 24 && k[2] == 'o' {
        24
    } else if k.len() == 19 && k[0] == 'd' {
        25
    } else if k.len() == 30 && k[0] == 'w' {
        26
    } else if k.len() == 6 && k[4] == 'c' {
        27
    } else if k.len() == 26 && k[0] == 'c' {
        28
    } else if k.len() == 16 && k[0] == 'c' {
        29
    } else if k.len() == 27 && k[0] == 'f' {
        30
    } else if k.len() == 19 && k[0] == 'f' {
        31
    } else if k.len() == 27 && k[0] == 'm' {
        32
    } else if k.len() == 21 && k[0] == 'p' {
        33
    } else if k.len() == 30 && k[0] == 'p' {
        34
    } else if k.len() == 20 && k[0] == 'p' {
        35
    } else if k.len() == 5 && k[0] == 't' {
        36
    } else if k.len() == 8 && k[0] == 'f' {
        37
    } else if k.len() == 34 && k[0] == 'e' {
        38
    } else if k.len() == 37 && k[0] == 'e' {
        39
    } else if k.len() == 14 && k[0] == 'g' {
        40
    } else if k.len() == 27 && k[0] == 'c' {
        41
    } else if k.len() == 11 && k[0] == 'm' {
        42
    } else if k.len() == 15 && k[6] == 'p' {
        43
    } else if k.len() == 12 && k[0] == 'o' {
        44
    } else if k.len() == 7 && k[0] == 'p' {
        45
    } else if k.len() == 8 && k[3] == 'f' {
        46
    } else if k.len() == 8 && k[3] == 'j' {
        47
    } else if k.len() == 4 && k[0] == 'o' {
        48
    } else {
        -1
    }
}

/// The keys of the config order are distinct.
pub proof fn lemma_config_toml_key_order_distinct()
    ensures
        spec_config_toml_key_order().no_duplicates(),
{
    broadcast use vstd::string::group_string_axioms;
    reveal_strlit("model");
    reveal_strlit("review_model");
    reveal_strlit("model_provider");
    reveal_strlit("model_context_window");
    reveal_strlit("model_auto_compact_token_limit");
    reveal_strlit("tool_output_token_limit");
    reveal_strlit("model_reasoning_effort");
    reveal_strlit("model_reasoning_summary");
    reveal_strlit("model_verbosity");
    reveal_strlit("model_supports_reasoning_summaries");
    reveal_strlit("developer_instructions");
    reveal_strlit("instructions");
    reveal_strlit("compact_prompt");
    reveal_strlit("experimental_instructions_file");
    reveal_strlit("experimental_compact_prompt_file");
    reveal_strlit("notify");
    reveal_strlit("approval_policy");
    reveal_strlit("sandbox_mode");
    reveal_strlit("sandbox_workspace_write");
    reveal_strlit("shell_environment_policy");
    reveal_strlit("history");
    reveal_strlit("file_opener");
    reveal_strlit("tui");
    reveal_strlit("hide_agent_reasoning");
    reveal_strlit("show_raw_agent_reasoning");
    reveal_strlit("disable_paste_burst");
    reveal_strlit("windows_wsl_setup_acknowledged");
    reveal_strlit("notice");
    reveal_strlit("cli_auth_credentials_store");
    reveal_strlit("chatgpt_base_url");
    reveal_strlit("forced_chatgpt_workspace_id");
    reveal_strlit("forced_login_method");
    reveal_strlit("mcp_oauth_credentials_store");
    reveal_strlit("project_doc_max_bytes");
    reveal_strlit("project_doc_fallback_filenames");
    reveal_strlit("project_root_markers");
    reveal_strlit("tools");
    reveal_strlit("features");
    reveal_strlit("experimental_use_unified_exec_tool");
    reveal_strlit("experimental_use_freeform_apply_patch");
    reveal_strlit("ghost_snapshot");
    reveal_strlit("check_for_update_on_startup");
    reveal_strlit("mcp_servers");
    reveal_strlit("model_providers");
    reveal_strlit("oss_provider");
    reveal_strlit("profile");
    reveal_strlit("profiles");
    reveal_strlit("projects");
    reveal_strlit("otel");
    let s = spec_config_toml_key_order();
    assert forall|i: int| 0 <= i < s.len() implies #[trigger] config_toml_key_slot(s[i]) == i by {
        if i == 0 {
        } else if i == 1 {
        } else if i == 2 {
        } else if i == 3 {
        } else if i == 4 {
        } else if i == 5 {
        } else if i == 6 {
        } else if i == 7 {
        } else if i == 8 {
        } else if i == 9 {
        } else if i == 10 {
        } else if i == 11 {
        } else if i == 12 {
        } else if i == 13 {
        } else if i == 14 {
        } else if i == 15 {
        } else if i == 16 {
        } else if i == 17 {
        } else if i == 18 {
        } else if i == 19 {
        } else if i == 20 {
        } else if i == 21 {
        } else if i == 22 {
        } else if i == 23 {
        } else if i == 24 {
        } else if i == 25 {
        } else if i == 26 {
        } else if i == 27 {
        } else if i == 28 {
        } else if i == 29 {
        } else if i == 30 {
        } else if i == 31 {
        } else if i == 32 {
        } else if i == 33 {
        } else if i == 34 {
        } else if i == 35 {
        } else if i == 36 {
        } else if i == 37 {
        } else if i == 38 {
        } else if i == 39 {
        } else if i == 40 {
        } else if i == 41 {
        } else if i == 42 {
        } else if i == 43 {
        } else if i == 44 {
        } else if i == 45 {
        } else if i == 46 {
        } else if i == 47 {
        } else if i == 48 {
        }
    }
    lemma_no_duplicates_by_slot(s, |k: Seq<char>| config_toml_key_slot(k));
}

/// The position of a key in the MCP server configuration order, told apart from the other
/// keys by its length and one of its characters; -1 for other keys.
spec fn mcp_server_config_key_slot(k: Seq<char>) -> int {
    if k.len() == 7 && k[0] == 'c' {
        0
    } else if k.len() == 3 && k[0] == 'u' {
        1
    } else if k.len() == 4 && k[0] == 'a' {
        2
    } else if k.len() == 3 && k[0] == 'e' {
        3
    } else if k.len() == 8 && k[0] == 'e' {
        4
    } else if k.len() == 3 && k[0] == 'c' {
        5
    } else if k.len() == 20 && k[0] == 'b' {
        6
    } else if k.len() == 12 && k[0] == 'h' {
        7
    } else if k.len() == 16 && k[0] == 'e' {
        8
    } else if k.len() == 7 && k[0] == 'e' {
        9
    } else if k.len() == 19 && k[0] == 's' {
        10
    } else if k.len() == 16 && k[0] == 't' {
        11
    } else if k.len() == 13 && k[0] == 'e' {
        12
    } else if k.len() == 14 && k[0] == 'd' {
        13
    } else {
        -1
    }
}

/// The keys of the MCP server configuration order are distinct.
pub proof fn lemma_mcp_server_config_key_order_distinct()
    ensures
        spec_mcp_server_config_key_order().no_duplicates(),
{
    broadcast use vstd::string::group_string_axioms;
    reveal_strlit("command");
    reveal_strlit("url");
    reveal_strlit("args");
    reveal_strlit("env");
    reveal_strlit("env_vars");
    reveal_strlit("cwd");
    reveal_strlit("bearer_token_env_var");
    reveal_strlit("http_headers");
    reveal_strlit("env_http_headers");
    reveal_strlit("enabled");
    reveal_strlit("startup_timeout_sec");
    reveal_strlit("tool_timeout_sec");
    reveal_strlit("enabled_tools");
    reveal_strlit("disabled_tools");
    let s = spec_mcp_server_config_key_order();
    assert forall|i: int| 0 <= i < s.len() implies #[trigger] mcp_server_config_key_slot(s[i]) == i by {
        if i == 0 {
        } else if i == 1 {
        } else if i == 2 {
        } else if i == 3 {
        } else if i == 4 {
        } else if i == 5 {
        } else if i == 6 {
        } else if i == 7 {
        } else if i == 8 {
        } else if i == 9 {
        } else if i == 10 {
        } else if i == 11 {
        } else if i == 12 {
        } else if i == 13 {
        }
    }
    lemma_no_duplicates_by_slot(s, |k: Seq<char>| mcp_server_config_key_slot(k));
}

/// The position of a key in the notice order, told apart from the other
/// keys by its length and one of its characters; -1 for other keys.
spec fn notice_key_slot(k: Seq<char>) -> int {
    if k.len() == 24 && k[0] == 'h' {
        0
    } else if k.len() == 27 && k[5] == 'w' {
        1
    } else if k.len() == 27 && k[5] == 'r' {
        2
    } else if k.len() == 28 && k[0] == 'h' {
        3
    } else if k.len() == 39 && k[0] == 'h' {
        4
    } else if k.len() == 16 && k[0] == 'm' {
        5
    } else {
        -1
    }
}

/// The keys of the notice order are distinct.
pub proof fn lemma_notice_key_order_distinct()
    ensures
        spec_notice_key_order().no_duplicates(),
{
    broadcast use vstd::string::group_string_axioms;
    reveal_strlit("hide_full_access_warning");
    reveal_strlit("hide_world_writable_warning");
    reveal_strlit("hide_rate_limit_model_nudge");
    reveal_strlit("hide_gpt5_1_migration_prompt");
    reveal_strlit("hide_gpt-5.1-codex-max_migration_prompt");
    reveal_strlit("model_migrations");
    let s = spec_notice_key_order();
    assert forall|i: int| 0 <= i < s.len() implies #[trigger] notice_key_slot(s[i]) == i by {
        if i == 0 {
        } else if i == 1 {
        } else if i == 2 {
        } else if i == 3 {
        } else if i == 4 {
        } else if i == 5 {
        }
    }
    lemma_no_duplicates_by_slot(s, |k: Seq<char>| notice_key_slot(k));
}


} // verus!
