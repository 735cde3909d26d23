//! Schema transforms for config types.
//!
//! The MCP server configuration is generated as an `anyOf` over its
//! transports. The transform here flattens it into one object schema with
//! all properties merged and a `oneOf` constraint for the required fields.

use vstd::prelude::*;
use crate::json::{
    keys_distinct, lemma_get_value_insert, lemma_get_value_swap_remove,
    lemma_insert_after_replace,
    Json, JsonMap, JsonValue, get_value, has_key, insert_entry, swap_remove_entry, child,
    insert_all, insert_missing, entries_view, values_view, lemma_entries_view, lemma_values_view,
};

verus! {

/// `v` is an object whose `properties` is an object holding `name`.
pub open spec fn variant_has_property(v: Json, name: Seq<char>) -> bool {
    match child(v, "properties"@) {
        Some(Json::Object(p)) => has_key(p, name),
        _ => false,
    }
}

/// Some element of `vs` has the property `name`.
pub open spec fn any_variant_has_property(vs: Seq<Json>, name: Seq<char>) -> bool {
    exists|i: int| 0 <= i < vs.len() && variant_has_property(#[trigger] vs[i], name)
}

/// The string elements of `a`, in order; other elements are skipped.
pub open spec fn string_elements(a: Seq<Json>) -> Seq<Seq<char>>
    decreases a.len(),
{
    if a.len() == 0 {
        Seq::empty()
    } else {
        let rest = string_elements(a.drop_last());
        match a.last() {
            Json::Str(s) => rest.push(s),
            _ => rest,
        }
    }
}

/// The state of the merge over the transport variants: merged properties,
/// stdio required fields, http required fields.
pub type MergeState = (Seq<(Seq<char>, Json)>, Seq<Seq<char>>, Seq<Seq<char>>);

/// One variant merged into the state: its properties are inserted, and its
/// `required` strings become the stdio list if its properties hold
/// `command`, else the http list if they hold `url`.
pub open spec fn merge_variant(st: MergeState, v: Json) -> MergeState {
    match child(v, "properties"@) {
        Some(Json::Object(p)) => {
            let is_stdio = has_key(p, "command"@);
            let is_http = has_key(p, "url"@);
            let (stdio, http) = match child(v, "required"@) {
                Some(Json::Array(req)) => if is_stdio {
                    (string_elements(req), st.2)
                } else if is_http {
                    (st.1, string_elements(req))
                } else {
                    (st.1, st.2)
                },
                _ => (st.1, st.2),
            };
            (insert_all(st.0, p), stdio, http)
        },
        _ => st,
    }
}

/// All variants merged, in order, from an empty state.
pub open spec fn merge_variants(vs: Seq<Json>) -> MergeState
    decreases vs.len(),
{
    if vs.len() == 0 {
        (Seq::empty(), Seq::empty(), Seq::empty())
    } else {
        merge_variant(merge_variants(vs.drop_last()), vs.last())
    }
}

/// A JSON array of strings.
pub open spec fn string_array(ss: Seq<Seq<char>>) -> Json {
    Json::Array(ss.map_values(|s: Seq<char>| Json::Str(s)))
}

/// The `oneOf` constraint: one of the two `required` lists must hold.
pub open spec fn one_of_required(stdio: Seq<Seq<char>>, http: Seq<Seq<char>>) -> Json {
    Json::Array(
        seq![
            Json::Object(seq![("required"@, string_array(stdio))]),
            Json::Object(seq![("required"@, string_array(http))]),
        ],
    )
}

/// The description of the flattened MCP server configuration.
pub open spec fn mcp_description() -> Seq<char> {
    "MCP server configuration. Must specify either 'command' (stdio transport) or 'url' (HTTP transport)."@
}

/// Whether the entries describe an MCP server configuration: shared
/// `properties` holding `enabled` and `enabled_tools`, and an `anyOf`
/// array with a `command` variant and a `url` variant.
pub open spec fn is_mcp_server_config(es: Seq<(Seq<char>, Json)>) -> bool {
    &&& get_value(es, "properties"@) matches Some(Json::Object(props)) && has_key(
        props,
        "enabled"@,
    ) && has_key(props, "enabled_tools"@)
    &&& get_value(es, "anyOf"@) matches Some(Json::Array(vs)) && any_variant_has_property(
        vs,
        "command"@,
    ) && any_variant_has_property(vs, "url"@)
}

/// The flattened entries of an MCP server configuration.
pub open spec fn flattened_entries(es: Seq<(Seq<char>, Json)>) -> Seq<(Seq<char>, Json)> {
    let vs = match get_value(es, "anyOf"@) {
        Some(Json::Array(vs)) => vs,
        _ => Seq::empty(),
    };
    let es1 = swap_remove_entry(es, "anyOf"@);
    let (merged, stdio, http) = merge_variants(vs);
    let all = match get_value(es1, "properties"@) {
        Some(Json::Object(existing)) => insert_missing(merged, existing),
        _ => merged,
    };
    let es2 = insert_entry(es1, "properties"@, Json::Object(all));
    let es3 = insert_entry(es2, "oneOf"@, one_of_required(stdio, http));
    let es4 = insert_entry(es3, "x-tombi-table-keys-order"@, Json::Str("schema"@));
    let es5 = insert_entry(es4, "type"@, Json::Str("object"@));
    let es6 = swap_remove_entry(es5, "additionalProperties"@);
    let es7 = swap_remove_entry(es6, "required"@);
    insert_entry(es7, "description"@, Json::Str(mcp_description()))
}

/// The schema after the flattening transform: an MCP server configuration
/// is flattened, anything else is unchanged.
pub open spec fn spec_flatten_mcp_server_config(j: Json) -> Json {
    match j {
        Json::Object(es) => if is_mcp_server_config(es) {
            Json::Object(flattened_entries(es))
        } else {
            j
        },
        _ => j,
    }
}

/// Whether some element of `vs` has the property `name`.
fn any_has_property(vs: &Vec<JsonValue>, name: &str) -> (r: bool)
    ensures
        r == any_variant_has_property(values_view(vs@), name@),
{
    proof {
        lemma_values_view(vs@);
    }
    let mut i: usize = 0;
    while i < vs.len()
        invariant
            i <= vs@.len(),
            values_view(vs@).len() == vs@.len(),
            forall|j: int| 0 <= j < vs@.len() ==> #[trigger] values_view(vs@)[j] == vs@[j]@,
            forall|j: int| 0 <= j < i ==> !variant_has_property(#[trigger] values_view(vs@)[j], name@),
        decreases vs.len() - i,
    {
        let found = match vs[i].get("properties") {
            Some(JsonValue::Object(p)) => p.contains_key(name),
            _ => false,
        };
        if found {
            assert(variant_has_property(values_view(vs@)[i as int], name@));
            return true;
        }
        i = i + 1;
    }
    false
}

/// The string elements of `a`.
fn string_elements_of(a: &Vec<JsonValue>) -> (r: Vec<String>)
    ensures
        r@.map_values(|s: String| s@) == string_elements(values_view(a@)),
{
    proof {
        lemma_values_view(a@);
    }
    let mut r: Vec<String> = Vec::new();
    let mut i: usize = 0;
    while i < a.len()
        invariant
            i <= a@.len(),
            values_view(a@).len() == a@.len(),
            forall|j: int| 0 <= j < a@.len() ==> #[trigger] values_view(a@)[j] == a@[j]@,
            r@.map_values(|s: String| s@) == string_elements(values_view(a@).take(i as int)),
        decreases a.len() - i,
    {
        let ghost before = r@;
        proof {
            assert(values_view(a@).take(i + 1).drop_last() =~= values_view(a@).take(i as int));
        }
        match a[i].as_str() {
            Some(s) => {
                r.push(s.to_owned());
                assert(r@.map_values(|s: String| s@) =~= before.map_values(|s: String| s@).push(s@));
            },
            None => {},
        }
        i = i + 1;
    }
    assert(values_view(a@).take(a.len() as int) =~= values_view(a@));
    r
}

/// A JSON array of the given strings.
fn string_array_of(ss: Vec<String>) -> (r: JsonValue)
    ensures
        r@ == string_array(ss@.map_values(|s: String| s@)),
{
    let ghost orig = ss@;
    let mut rest = ss;
    let mut out: Vec<JsonValue> = Vec::new();
    let mut i: usize = 0;
    let n = rest.len();
    while rest.len() > 0
        invariant
            n == orig.len(),
            i + rest@.len() == n,
            rest@ == orig.skip(i as int),
            out@.len() == i,
            forall|j: int| 0 <= j < i ==> (#[trigger] out@[j])@ == Json::Str(orig[j]@),
        decreases rest.len(),
    {
        let s = rest.remove(0);
        assert(orig.skip(i as int)[0] == orig[i as int]);
        assert(orig.skip(i as int).drop_first() =~= orig.skip(i + 1));
        out.push(JsonValue::Str(s));
        i = i + 1;
    }
    proof {
        lemma_values_view(out@);
        assert(values_view(out@) =~= orig.map_values(|s: String| s@).map_values(
            |s: Seq<char>| Json::Str(s),
        ));
    }
    JsonValue::Array(out)
}

/// Inserts all entries of `more` into `all`, in order.
fn insert_all_into(all: &mut JsonMap, more: JsonMap)
    ensures
        final(all)@ == insert_all(old(all)@, more@),
{
    let ghost m = more@;
    let mut es = more.into_entries();
    let ghost orig = es@;
    let ghost a0 = all@;
    let n = es.len();
    let mut i: usize = 0;
    proof {
        lemma_entries_view(orig);
        assert(m.take(0) =~= Seq::<(Seq<char>, Json)>::empty());
    }
    while es.len() > 0
        invariant
            n == orig.len(),
            i + es@.len() == n,
            es@ == orig.skip(i as int),
            m == entries_view(orig),
            m.len() == orig.len(),
            forall|j: int| 0 <= j < orig.len() ==> #[trigger] m[j] == (orig[j].0@, orig[j].1@),
            all@ == insert_all(a0, m.take(i as int)),
        decreases es.len(),
    {
        let e = es.remove(0);
        proof {
            assert(orig.skip(i as int)[0] == orig[i as int]);
            assert(orig.skip(i as int).drop_first() =~= orig.skip(i + 1));
            assert(m.take(i + 1).drop_last() =~= m.take(i as int));
            assert(m.take(i + 1).last() == (e.0@, e.1@));
        }
        all.insert(e.0, e.1);
        i = i + 1;
    }
    assert(m.take(n as int) =~= m);
}

/// Inserts the entries of `more` into `all`, in order, skipping keys that
/// are already present.
fn insert_missing_into(all: &mut JsonMap, more: JsonMap)
    ensures
        final(all)@ == insert_missing(old(all)@, more@),
{
    let ghost m = more@;
    let mut es = more.into_entries();
    let ghost orig = es@;
    let ghost a0 = all@;
    let n = es.len();
    let mut i: usize = 0;
    proof {
        lemma_entries_view(orig);
        assert(m.take(0) =~= Seq::<(Seq<char>, Json)>::empty());
    }
    while es.len() > 0
        invariant
            n == orig.len(),
            i + es@.len() == n,
            es@ == orig.skip(i as int),
            m == entries_view(orig),
            m.len() == orig.len(),
            forall|j: int| 0 <= j < orig.len() ==> #[trigger] m[j] == (orig[j].0@, orig[j].1@),
            all@ == insert_missing(a0, m.take(i as int)),
        decreases es.len(),
    {
        let e = es.remove(0);
        proof {
            assert(orig.skip(i as int)[0] == orig[i as int]);
            assert(orig.skip(i as int).drop_first() =~= orig.skip(i + 1));
            assert(m.take(i + 1).drop_last() =~= m.take(i as int));
            assert(m.take(i + 1).last() == (e.0@, e.1@));
        }
        if !all.contains_key(e.0.as_str()) {
            all.insert(e.0, e.1);
        }
        i = i + 1;
    }
    assert(m.take(n as int) =~= m);
}

/// Flattens an MCP server configuration object; see
/// [`flatten_mcp_server_config`].
fn flatten_object(obj: &mut JsonMap)
    ensures
        final(obj)@ == if is_mcp_server_config(old(obj)@) {
            flattened_entries(old(obj)@)
        } else {
            old(obj)@
        },
{
    let ghost es = obj@;
    let has_shared_props = match obj.get("properties") {
        Some(JsonValue::Object(p)) => p.contains_key("enabled") && p.contains_key("enabled_tools"),
        _ => false,
    };
    if !has_shared_props {
        return;
    }
    let (has_stdio, has_http) = match obj.get("anyOf") {
        Some(JsonValue::Array(vs)) => (any_has_property(vs, "command"), any_has_property(vs, "url")),
        _ => (false, false),
    };
    if !has_stdio || !has_http {
        return;
    }
    let ghost vs_model = match get_value(es, "anyOf"@) {
        Some(Json::Array(vs)) => vs,
        _ => Seq::empty(),
    };
    let mut variants: Vec<JsonValue> = match obj.remove("anyOf") {
        Some(JsonValue::Array(a)) => a,
        _ => Vec::new(),
    };
    let ghost orig = variants@;
    proof {
        lemma_values_view(orig);
        assert(values_view(orig) == vs_model);
        assert(vs_model.take(0) =~= Seq::<Json>::empty());
    }
    let mut all = JsonMap::new();
    let mut stdio_required: Vec<String> = Vec::new();
    let mut http_required: Vec<String> = Vec::new();
    let n = variants.len();
    let mut i: usize = 0;
    while variants.len() > 0
        invariant
            n == orig.len(),
            i + variants@.len() == n,
            variants@ == orig.skip(i as int),
            vs_model == values_view(orig),
            vs_model.len() == orig.len(),
            forall|j: int| 0 <= j < orig.len() ==> #[trigger] vs_model[j] == orig[j]@,
            merge_variants(vs_model.take(i as int)) == (
                all@,
                stdio_required@.map_values(|s: String| s@),
                http_required@.map_values(|s: String| s@),
            ),
        decreases variants.len(),
    {
        let mut v = variants.remove(0);
        let ghost vm = v@;
        proof {
            assert(orig.skip(i as int)[0] == orig[i as int]);
            assert(orig.skip(i as int).drop_first() =~= orig.skip(i + 1));
            assert(vs_model.take(i + 1).drop_last() =~= vs_model.take(i as int));
            assert(vs_model.take(i + 1).last() == vm);
        }
        let reqs: Option<Vec<String>> = match v.get("required") {
            Some(JsonValue::Array(req)) => Some(string_elements_of(req)),
            _ => None,
        };
        match v.take_child("properties") {
            Some(JsonValue::Object(props)) => {
                let is_stdio = props.contains_key("command");
                let is_http = props.contains_key("url");
                match reqs {
                    Some(r) => {
                        if is_stdio {
                            stdio_required = r;
                        } else if is_http {
                            http_required = r;
                        }
                    },
                    None => {},
                }
                insert_all_into(&mut all, props);
            },
            _ => {},
        }
        i = i + 1;
    }
    assert(vs_model.take(n as int) =~= vs_model);
    let ghost es1 = obj@;
    match obj.replace_value("properties", JsonValue::Null) {
        Some(JsonValue::Object(existing)) => {
            insert_missing_into(&mut all, existing);
        },
        _ => {},
    }
    let ghost es1b = obj@;
    proof {
        lemma_insert_after_replace(es1, "properties"@, Json::Null, Json::Object(all@));
    }
    obj.insert("properties".to_owned(), JsonValue::Object(all));
    let one_of = {
        let mut stdio_obj = JsonMap::new();
        stdio_obj.insert("required".to_owned(), string_array_of(stdio_required));
        let mut http_obj = JsonMap::new();
        http_obj.insert("required".to_owned(), string_array_of(http_required));
        let mut arr: Vec<JsonValue> = Vec::new();
        arr.push(JsonValue::Object(stdio_obj));
        arr.push(JsonValue::Object(http_obj));
        let a = JsonValue::Array(arr);
        proof {
            lemma_values_view(arr@);
            assert(values_view(arr@) =~= one_of_required(
                merge_variants(vs_model).1,
                merge_variants(vs_model).2,
            )->Array_0);
        }
        a
    };
    obj.insert("oneOf".to_owned(), one_of);
    obj.insert("x-tombi-table-keys-order".to_owned(), JsonValue::from_str("schema"));
    obj.insert("type".to_owned(), JsonValue::from_str("object"));
    obj.remove("additionalProperties");
    obj.remove("required");
    obj.insert(
        "description".to_owned(),
        JsonValue::from_str(
            "MCP server configuration. Must specify either 'command' (stdio transport) or 'url' (HTTP transport).",
        ),
    );
}

/// Flattens the MCP server configuration's transport enum into a single
/// object schema.
///
/// The configuration accepts either `command` + `args` + `env` +
/// `env_vars` + `cwd` (stdio transport) or `url` + `bearer_token_env_var` +
/// `http_headers` + `env_http_headers` (http transport), plus the shared
/// fields `enabled`, `startup_timeout_sec`, `tool_timeout_sec`,
/// `enabled_tools` and `disabled_tools`.
///
/// The schema is recognized by its structure: `properties` holding the
/// shared fields `enabled` and `enabled_tools`, and an `anyOf` array with a
/// variant whose properties hold `command` and one whose properties hold
/// `url`. It then gets all variant properties merged (shared fields kept
/// where a variant does not define them), a `oneOf` with the two transports'
/// `required` lists, `x-tombi-table-keys-order: "schema"`, `type: "object"`
/// and a description; `anyOf`, `additionalProperties` and `required` are
/// removed. Any other schema is left unchanged.
pub fn flatten_mcp_server_config(schema: &mut JsonValue)
    ensures
        final(schema)@ == spec_flatten_mcp_server_config(old(schema)@),
{
    match schema {
        JsonValue::Object(obj) => {
            flatten_object(obj);
        },
        _ => {},
    }
}

/// The keys the flattening writes are distinct.
proof fn lemma_flatten_keys_distinct()
    ensures
        "anyOf"@ != "oneOf"@,
        "anyOf"@ != "properties"@,
        "anyOf"@ != "x-tombi-table-keys-order"@,
        "anyOf"@ != "type"@,
        "anyOf"@ != "description"@,
        "oneOf"@ != "additionalProperties"@,
        "oneOf"@ != "required"@,
        "oneOf"@ != "description"@,
        "type"@ != "x-tombi-table-keys-order"@,
        "type"@ != "additionalProperties"@,
        "type"@ != "required"@,
        "type"@ != "description"@,
        "x-tombi-table-keys-order"@ != "additionalProperties"@,
        "x-tombi-table-keys-order"@ != "required"@,
        "x-tombi-table-keys-order"@ != "description"@,
        "additionalProperties"@ != "description"@,
        "required"@ != "description"@,
{
    broadcast use vstd::string::group_string_axioms;
    reveal_strlit("anyOf");
    reveal_strlit("oneOf");
    reveal_strlit("properties");
    reveal_strlit("x-tombi-table-keys-order");
    reveal_strlit("type");
    reveal_strlit("additionalProperties");
    reveal_strlit("required");
    reveal_strlit("description");
    assert("anyOf"@[0] != "oneOf"@[0]);
    assert("anyOf"@.len() != "properties"@.len());
    assert("anyOf"@.len() != "x-tombi-table-keys-order"@.len());
    assert("anyOf"@.len() != "type"@.len());
    assert("anyOf"@.len() != "additionalProperties"@.len());
    assert("anyOf"@.len() != "required"@.len());
    assert("anyOf"@.len() != "description"@.len());
    assert("oneOf"@.len() != "properties"@.len());
    assert("oneOf"@.len() != "x-tombi-table-keys-order"@.len());
    assert("oneOf"@.len() != "type"@.len());
    assert("oneOf"@.len() != "additionalProperties"@.len());
    assert("oneOf"@.len() != "required"@.len());
    assert("oneOf"@.len() != "description"@.len());
    assert("properties"@.len() != "x-tombi-table-keys-order"@.len());
    assert("properties"@.len() != "type"@.len());
    assert("properties"@.len() != "additionalProperties"@.len());
    assert("properties"@.len() != "required"@.len());
    assert("properties"@.len() != "description"@.len());
    assert("x-tombi-table-keys-order"@.len() != "type"@.len());
    assert("x-tombi-table-keys-order"@.len() != "additionalProperties"@.len());
    assert("x-tombi-table-keys-order"@.len() != "required"@.len());
    assert("x-tombi-table-keys-order"@.len() != "description"@.len());
    assert("type"@.len() != "additionalProperties"@.len());
    assert("type"@.len() != "required"@.len());
    assert("type"@.len() != "description"@.len());
    assert("additionalProperties"@.len() != "required"@.len());
    assert("additionalProperties"@.len() != "description"@.len());
    assert("required"@.len() != "description"@.len());
}

/// A flattened MCP server configuration keeps distinct keys, has a `oneOf`,
/// `type: "object"` and `x-tombi-table-keys-order: "schema"`, and no
/// `anyOf`, `additionalProperties` or `required`.
pub proof fn lemma_flatten_shape(es: Seq<(Seq<char>, Json)>)
    requires
        keys_distinct(es),
        is_mcp_server_config(es),
    ensures
        ({
            let r = flattened_entries(es);
            &&& keys_distinct(r)
            &&& get_value(r, "anyOf"@) is None
            &&& get_value(r, "oneOf"@) is Some
            &&& get_value(r, "type"@) == Some(Json::Str("object"@))
            &&& get_value(r, "x-tombi-table-keys-order"@) == Some(Json::Str("schema"@))
            &&& get_value(r, "additionalProperties"@) is None
            &&& get_value(r, "required"@) is None
            &&& get_value(r, "description"@) == Some(Json::Str(mcp_description()))
        }),
{
    lemma_flatten_keys_distinct();
    let vs = match get_value(es, "anyOf"@) {
        Some(Json::Array(vs)) => vs,
        _ => Seq::empty(),
    };
    let es1 = swap_remove_entry(es, "anyOf"@);
    lemma_get_value_swap_remove(es, "anyOf"@);
    let (merged, stdio, http) = merge_variants(vs);
    let all = match get_value(es1, "properties"@) {
        Some(Json::Object(existing)) => insert_missing(merged, existing),
        _ => merged,
    };
    let es2 = insert_entry(es1, "properties"@, Json::Object(all));
    lemma_get_value_insert(es1, "properties"@, Json::Object(all));
    let es3 = insert_entry(es2, "oneOf"@, one_of_required(stdio, http));
    lemma_get_value_insert(es2, "oneOf"@, one_of_required(stdio, http));
    let es4 = insert_entry(es3, "x-tombi-table-keys-order"@, Json::Str("schema"@));
    lemma_get_value_insert(es3, "x-tombi-table-keys-order"@, Json::Str("schema"@));
    let es5 = insert_entry(es4, "type"@, Json::Str("object"@));
    lemma_get_value_insert(es4, "type"@, Json::Str("object"@));
    let es6 = swap_remove_entry(es5, "additionalProperties"@);
    lemma_get_value_swap_remove(es5, "additionalProperties"@);
    let es7 = swap_remove_entry(es6, "required"@);
    lemma_get_value_swap_remove(es6, "required"@);
    lemma_get_value_insert(es7, "description"@, Json::Str(mcp_description()));
    let es8 = insert_entry(es7, "description"@, Json::Str(mcp_description()));
    assert(flattened_entries(es) == es8);
    assert(get_value(es1, "anyOf"@) is None);
    assert(get_value(es2, "anyOf"@) is None);
    assert(get_value(es3, "anyOf"@) is None);
    assert(get_value(es4, "anyOf"@) is None);
    assert(get_value(es5, "anyOf"@) is None);
    assert(get_value(es6, "anyOf"@) is None);
    assert(get_value(es7, "anyOf"@) is None);
    assert(get_value(es8, "anyOf"@) is None);
    assert(get_value(es3, "oneOf"@) is Some);
    assert(get_value(es4, "oneOf"@) is Some);
    assert(get_value(es5, "oneOf"@) is Some);
    assert(get_value(es6, "oneOf"@) is Some);
    assert(get_value(es7, "oneOf"@) is Some);
    assert(get_value(es8, "oneOf"@) is Some);
    assert(get_value(es5, "type"@) == Some(Json::Str("object"@)));
    assert(get_value(es6, "type"@) == Some(Json::Str("object"@)));
    assert(get_value(es7, "type"@) == Some(Json::Str("object"@)));
    assert(get_value(es8, "type"@) == Some(Json::Str("object"@)));
    assert(get_value(es4, "x-tombi-table-keys-order"@) == Some(Json::Str("schema"@)));
    assert(get_value(es5, "x-tombi-table-keys-order"@) == Some(Json::Str("schema"@)));
    assert(get_value(es6, "x-tombi-table-keys-order"@) == Some(Json::Str("schema"@)));
    assert(get_value(es7, "x-tombi-table-keys-order"@) == Some(Json::Str("schema"@)));
    assert(get_value(es8, "x-tombi-table-keys-order"@) == Some(Json::Str("schema"@)));
    assert(get_value(es6, "additionalProperties"@) is None);
    assert(get_value(es7, "additionalProperties"@) is None);
    assert(get_value(es8, "additionalProperties"@) is None);
    assert(get_value(es7, "required"@) is None);
    assert(get_value(es8, "required"@) is None);
}

/// Flattening is idempotent: a flattened configuration has no `anyOf`, so
/// it is left as it is.
pub proof fn lemma_flatten_idempotent(j: Json)
    requires
        j matches Json::Object(es) && keys_distinct(es),
    ensures
        spec_flatten_mcp_server_config(spec_flatten_mcp_server_config(j))
            == spec_flatten_mcp_server_config(j),
{
    if let Json::Object(es) = j {
        if is_mcp_server_config(es) {
            lemma_flatten_shape(es);
        }
    }
}

} // verus!
