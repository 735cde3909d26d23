//! JSON Schema post-processing for the config file.
//!
//! The generated root schema gets a `$id` (for GitHub repositories), a Tombi
//! TOML version hint, model examples and feature properties; then all keys
//! are sorted in house style and the property orders for Tombi's "schema"
//! sorting strategy are applied.

use vstd::prelude::*;
use crate::text::{
    trim_end_matches_seq, has_prefix, has_suffix, first_index_of, trim_end_matches, strip_prefix,
    split_once_char, lemma_first_index_of,
};
use crate::json::{Json, JsonMap, JsonValue, update_child, with_inserted, with_child, child,
    keys_distinct, get_value, entry_keys, lemma_get_value_insert, lemma_get_value_replace,
    insert_entry, lemma_with_child, lemma_key_index, values_view, lemma_values_view,
    key_index, lemma_key_index_keys};
use crate::json_sort::{sort_json_keys, spec_sort_json_keys, sort_json_entries, entry_sort_key, lemma_sort_json_object_get, sort_json, lemma_sort_json_entries};
use crate::sorting::{sort_by_key, sorted_by, key_le, lemma_sort_by_key_props};
use crate::ordering::{
    reorder_config_toml_properties, reorder_mcp_server_config_properties,
    reorder_notice_properties, spec_reorder_config_toml_properties,
    spec_reorder_mcp_server_config_properties, spec_reorder_notice_properties, reorder_object,
    spec_config_toml_key_order, spec_mcp_server_config_key_order, notice_properties,
};
use crate::features::{FeatureSpec, Feature, all_feature_specs, spec_all_feature_specs, FEATURE_COUNT};

verus! {

/// Configuration for schema generation.
#[derive(Debug, Clone)]
pub struct SchemaConfig {
    /// Git remote URL (e.g., "https://github.com/user/codex.git").
    pub repo_url: Option<String>,
    /// Default branch name (e.g., "main" or "master").
    pub default_branch: Option<String>,
    /// Path to the schema file relative to the repository root.
    pub schema_path: String,
}

/// The view of an optional string.
pub open spec fn opt_view(s: Option<String>) -> Option<Seq<char>> {
    match s {
        Some(x) => Some(x@),
        None => None,
    }
}

impl Default for SchemaConfig {
    /// The openai/codex repository: `https://github.com/openai/codex.git`,
    /// branch `main`, schema at `codex-cli/config.schema.json`.
    fn default() -> (r: Self)
        ensures
            opt_view(r.repo_url) == Some("https://github.com/openai/codex.git"@),
            opt_view(r.default_branch) == Some("main"@),
            r.schema_path@ == "codex-cli/config.schema.json"@,
    {
        SchemaConfig {
            repo_url: Some("https://github.com/openai/codex.git".to_owned()),
            default_branch: Some("main".to_owned()),
            schema_path: "codex-cli/config.schema.json".to_owned(),
        }
    }
}

impl SchemaConfig {
    /// The configuration detected from the repository's git files.
    ///
    /// `git` is `None` when no git directory was found; then the defaults
    /// stand. Otherwise it holds the origin URL read from the git directory
    /// (`None` when it names no origin), which replaces the default URL, and
    /// the default branch, which replaces the default branch when known.
    pub fn from_git(git: Option<(Option<String>, Option<String>)>) -> (r: Self)
        ensures
            opt_view(r.repo_url) == match git {
                Some((origin_url, _)) => opt_view(origin_url),
                None => Some("https://github.com/openai/codex.git"@),
            },
            opt_view(r.default_branch) == match git {
                Some((_, Some(b))) => Some(b@),
                _ => Some("main"@),
            },
            r.schema_path@ == "codex-cli/config.schema.json"@,
    {
        let mut config = SchemaConfig::default();
        match git {
            Some((origin_url, default_branch)) => {
                config.repo_url = origin_url;
                match default_branch {
                    Some(branch) => {
                        config.default_branch = Some(branch);
                    },
                    None => {},
                }
            },
            None => {},
        }
        config
    }
}

/// The parts of `s` around the first `c`.
pub open spec fn split_once_seq(s: Seq<char>, c: char) -> Option<(Seq<char>, Seq<char>)> {
    match first_index_of(s, c) {
        Some(i) => Some((s.take(i), s.skip(i + 1))),
        None => None,
    }
}

/// Owner and repository of a GitHub URL, after removing every trailing
/// `.git`: `https://github.com/owner/repo` or `git@github.com:owner/repo`,
/// split at the first `/` after the host part.
pub open spec fn spec_parse_github_owner_repo(url: Seq<char>) -> Option<(Seq<char>, Seq<char>)> {
    let u = trim_end_matches_seq(url, ".git"@);
    if has_prefix(u, "https://github.com/"@) {
        split_once_seq(u.skip("https://github.com/"@.len() as int), '/')
    } else if has_prefix(u, "git@github.com:"@) {
        split_once_seq(u.skip("git@github.com:"@.len() as int), '/')
    } else {
        None
    }
}

/// Parses owner and repo from a GitHub git URL.
///
/// Handles `https://github.com/owner/repo.git`, `https://github.com/owner/repo`
/// and `git@github.com:owner/repo.git`; returns `None` for other URLs.
pub fn parse_github_owner_repo(url: &str) -> (r: Option<(String, String)>)
    ensures
        match spec_parse_github_owner_repo(url@) {
            Some((o, p)) => r matches Some((ro, rp)) && ro@ == o && rp@ == p,
            None => r is None,
        },
{
    proof {
        reveal_strlit(".git");
    }
    let url = trim_end_matches(url, ".git");
    match strip_prefix(url, "https://github.com/") {
        Some(rest) => {
            return match split_once_char(rest, '/') {
                Some((owner, repo)) => Some((owner.to_owned(), repo.to_owned())),
                None => None,
            };
        },
        None => {},
    }
    match strip_prefix(url, "git@github.com:") {
        Some(rest) => {
            return match split_once_char(rest, '/') {
                Some((owner, repo)) => Some((owner.to_owned(), repo.to_owned())),
                None => None,
            };
        },
        None => {},
    }
    None
}

/// The raw-content URL of the schema file:
/// `https://raw.githubusercontent.com/{owner}/{repo}/{branch}/{path}`.
pub open spec fn schema_url(owner: Seq<char>, repo: Seq<char>, branch: Seq<char>, path: Seq<char>) -> Seq<char> {
    "https://raw.githubusercontent.com/"@ + owner + "/"@ + repo + "/"@ + branch + "/"@ + path
}

/// The `$id` of the schema: present when the repository URL is a GitHub
/// URL and a default branch is known.
pub open spec fn spec_build_schema_id(config: SchemaConfig) -> Option<Seq<char>> {
    match config.repo_url {
        Some(url) => match spec_parse_github_owner_repo(url@) {
            Some((owner, repo)) => match config.default_branch {
                Some(branch) => Some(schema_url(owner, repo, branch@, config.schema_path@)),
                None => None,
            },
            None => None,
        },
        None => None,
    }
}

/// Builds the `$id` URL from the configuration; `None` for non-GitHub
/// repositories or without a default branch.
pub fn build_schema_id(config: &SchemaConfig) -> (r: Option<String>)
    ensures
        opt_view(r) == spec_build_schema_id(*config),
{
    let url = match &config.repo_url {
        Some(u) => u.as_str(),
        None => return None,
    };
    let (owner, repo) = match parse_github_owner_repo(url) {
        Some(p) => p,
        None => return None,
    };
    let branch = match &config.default_branch {
        Some(b) => b.as_str(),
        None => return None,
    };
    let mut id = "https://raw.githubusercontent.com/".to_owned();
    id.append(owner.as_str());
    id.append("/");
    id.append(repo.as_str());
    id.append("/");
    id.append(branch);
    id.append("/");
    id.append(config.schema_path.as_str());
    Some(id)
}

/// A JSON array of strings.
pub open spec fn strings_json(ss: Seq<Seq<char>>) -> Json {
    Json::Array(ss.map_values(|s: Seq<char>| Json::Str(s)))
}

/// A JSON array of the given strings.
fn strings_array(ss: &Vec<String>) -> (r: JsonValue)
    ensures
        r@ == strings_json(ss@.map_values(|s: String| s@)),
{
    let mut out: Vec<JsonValue> = Vec::new();
    let mut i: usize = 0;
    while i < ss.len()
        invariant
            i <= ss@.len(),
            out@.len() == i,
            forall|j: int| 0 <= j < i ==> (#[trigger] out@[j])@ == Json::Str(ss@[j]@),
        decreases ss.len() - i,
    {
        out.push(JsonValue::Str(ss[i].clone()));
        i = i + 1;
    }
    proof {
        lemma_values_view(out@);
        assert(values_view(out@) =~= ss@.map_values(|s: String| s@).map_values(
            |s: Seq<char>| Json::Str(s),
        ));
    }
    JsonValue::Array(out)
}

/// The schema with model examples on the `model` and `review_model`
/// properties; unchanged when there are no model ids.
pub open spec fn spec_inject_model_examples(j: Json, ids: Seq<Seq<char>>) -> Json {
    if ids.len() == 0 {
        j
    } else {
        let ex = strings_json(ids);
        update_child(
            j,
            "properties"@,
            |p: Json|
                update_child(
                    update_child(p, "model"@, |m: Json| with_inserted(m, "examples"@, ex)),
                    "review_model"@,
                    |r: Json| with_inserted(r, "examples"@, ex),
                ),
        )
    }
}

/// Adds `examples` with `ex` to the object under `key` in `props`.
fn add_examples(props: &mut JsonValue, key: &str, ids: &Vec<String>)
    ensures
        final(props)@ == update_child(
            old(props)@,
            key@,
            |m: Json| with_inserted(m, "examples"@, strings_json(ids@.map_values(|s: String| s@))),
        ),
{
    let ghost p = props@;
    match props.take_child(key) {
        Some(mut m) => {
            proof {
                lemma_with_child(p, key@, Json::Null, m@);
            }
            m.insert_child("examples".to_owned(), strings_array(ids));
            proof {
                lemma_with_child(p, key@, Json::Null, m@);
            }
            props.put_child(key, m);
        },
        None => {},
    }
}

/// Injects model examples into the `model` and `review_model` properties.
///
/// The examples are the ids of the models shown in the model picker.
pub fn inject_model_examples(schema: &mut JsonValue, model_ids: &Vec<String>)
    ensures
        final(schema)@ == spec_inject_model_examples(
            old(schema)@,
            model_ids@.map_values(|s: String| s@),
        ),
{
    if model_ids.len() == 0 {
        return;
    }
    let ghost j = schema@;
    match schema.take_child("properties") {
        Some(mut props) => {
            proof {
                lemma_with_child(j, "properties"@, Json::Null, props@);
            }
            add_examples(&mut props, "model", model_ids);
            add_examples(&mut props, "review_model", model_ids);
            proof {
                lemma_with_child(j, "properties"@, Json::Null, props@);
            }
            schema.put_child("properties", props);
        },
        None => {},
    }
}

/// The description of a feature property: `[{stage label}] {description}`.
pub open spec fn feature_description(f: Feature) -> Seq<char> {
    "["@ + f.spec_stage().spec_schema_label()@ + "] "@ + f.spec_description()@
}

/// The schema property of a feature: a boolean with its description and
/// default.
pub open spec fn feature_property(f: Feature) -> Json {
    Json::Object(
        seq![
            ("type"@, Json::Str("boolean"@)),
            ("description"@, Json::Str(feature_description(f))),
            ("default"@, Json::Bool(f.spec_default_enabled())),
        ],
    )
}

/// The properties of the first `n` features, inserted in order.
pub open spec fn feature_properties(n: nat) -> Seq<(Seq<char>, Json)>
    decreases n,
{
    if n == 0 {
        Seq::empty()
    } else {
        let f = Feature::spec_from_ordinal((n - 1) as nat);
        insert_entry(feature_properties((n - 1) as nat), f.spec_key()@, feature_property(f))
    }
}

/// The schema with the feature properties set on the `FeaturesToml`
/// definition.
pub open spec fn spec_inject_feature_properties(j: Json) -> Json {
    update_child(
        j,
        "definitions"@,
        |d: Json|
            update_child(
                d,
                "FeaturesToml"@,
                |f: Json|
                    with_inserted(f, "properties"@, Json::Object(feature_properties(FEATURE_COUNT as nat))),
            ),
    )
}

/// The schema property of a feature.
fn feature_property_value(spec: &FeatureSpec) -> (r: JsonValue)
    requires
        spec.key == spec.id.spec_key(),
        spec.stage == spec.id.spec_stage(),
        spec.default_enabled == spec.id.spec_default_enabled(),
    ensures
        r@ == feature_property(spec.id),
{
    proof {
        broadcast use vstd::string::group_string_axioms;
        reveal_strlit("type");
        reveal_strlit("description");
        reveal_strlit("default");
        assert("type"@.len() == 4);
        assert("default"@.len() == 7);
        assert("description"@.len() == 11);
    }
    let mut description = "[".to_owned();
    description.append(spec.stage.schema_label());
    description.append("] ");
    description.append(spec.id.description());
    assert(description@ == feature_description(spec.id));
    let mut m = JsonMap::new();
    m.insert("type".to_owned(), JsonValue::from_str("boolean"));
    proof {
        lemma_key_index(m@, "description"@);
        lemma_key_index(m@, "default"@);
    }
    m.insert("description".to_owned(), JsonValue::Str(description));
    proof {
        lemma_key_index(m@, "default"@);
    }
    assert(m@.len() == 2);
    assert(m@[0].0 != "default"@);
    assert(m@[1].0 != "default"@);
    m.insert("default".to_owned(), JsonValue::Bool(spec.default_enabled));
    assert(m@.len() == 3);
    assert(m@ =~= feature_property(spec.id)->Object_0);
    JsonValue::Object(m)
}

/// The properties object of all features.
fn feature_properties_object() -> (r: JsonValue)
    ensures
        r@ == Json::Object(feature_properties(FEATURE_COUNT as nat)),
{
    let specs = all_feature_specs();
    let mut props = JsonMap::new();
    let mut i: usize = 0;
    while i < specs.len()
        invariant
            specs@ == spec_all_feature_specs(),
            i <= FEATURE_COUNT,
            props@ == feature_properties(i as nat),
        decreases specs.len() - i,
    {
        let spec = &specs[i];
        let v = feature_property_value(spec);
        props.insert(spec.key.to_owned(), v);
        i = i + 1;
    }
    JsonValue::Object(props)
}

/// Injects feature properties into the `FeaturesToml` definition: one
/// boolean property per feature, with a description made of the stage
/// label and the feature's description, and its default.
pub fn inject_feature_properties(schema: &mut JsonValue)
    ensures
        final(schema)@ == spec_inject_feature_properties(old(schema)@),
{
    let ghost j = schema@;
    match schema.take_child("definitions") {
        Some(mut defs) => {
            let ghost d = defs@;
            proof {
                lemma_with_child(j, "definitions"@, Json::Null, d);
            }
            match defs.take_child("FeaturesToml") {
                Some(mut ft) => {
                    proof {
                        lemma_with_child(d, "FeaturesToml"@, Json::Null, ft@);
                    }
                    ft.insert_child("properties".to_owned(), feature_properties_object());
                    proof {
                        lemma_with_child(d, "FeaturesToml"@, Json::Null, ft@);
                    }
                    defs.put_child("FeaturesToml", ft);
                },
                None => {},
            }
            proof {
                lemma_with_child(j, "definitions"@, Json::Null, defs@);
            }
            schema.put_child("definitions", defs);
        },
        None => {},
    }
}

/// The schema with `$id` inserted when there is one.
pub open spec fn with_schema_id(j: Json, config: SchemaConfig) -> Json {
    match spec_build_schema_id(config) {
        Some(id) => with_inserted(j, "$id"@, Json::Str(id)),
        None => j,
    }
}

/// The finished config schema, from the generated root schema.
pub open spec fn spec_generate_config_schema(config: SchemaConfig, root: Json, ids: Seq<Seq<char>>) -> Json {
    let v1 = with_schema_id(root, config);
    let v2 = with_inserted(v1, "x-tombi-toml-version"@, Json::Str("v1.1.0"@));
    let v3 = spec_inject_model_examples(v2, ids);
    let v4 = spec_inject_feature_properties(v3);
    let v5 = spec_sort_json_keys(v4);
    spec_reorder_notice_properties(
        spec_reorder_mcp_server_config_properties(spec_reorder_config_toml_properties(v5)),
    )
}

/// Finishes the JSON Schema of the config file.
///
/// `root_schema` is the generated Draft 7 schema of the config, with the MCP
/// server configuration flattened; `picker_model_ids` are the ids of the
/// models shown in the model picker. The result has a `$id` when the
/// configuration names a GitHub repository and a branch, a Tombi TOML
/// version hint, model examples, feature properties, all keys sorted in
/// house style, and the property orders for Tombi's "schema" strategy.
pub fn generate_config_schema(
    config: &SchemaConfig,
    root_schema: JsonValue,
    picker_model_ids: &Vec<String>,
) -> (r: JsonValue)
    ensures
        r@ == spec_generate_config_schema(
            *config,
            root_schema@,
            picker_model_ids@.map_values(|s: String| s@),
        ),
{
    let mut value = root_schema;
    match build_schema_id(config) {
        Some(id) => {
            value.insert_child("$id".to_owned(), JsonValue::Str(id));
        },
        None => {},
    }
    value.insert_child("x-tombi-toml-version".to_owned(), JsonValue::from_str("v1.1.0"));
    inject_model_examples(&mut value, picker_model_ids);
    inject_feature_properties(&mut value);
    let mut sorted = sort_json_keys(value);
    reorder_config_toml_properties(&mut sorted);
    reorder_mcp_server_config_properties(&mut sorted);
    reorder_notice_properties(&mut sorted);
    sorted
}

/// The first `c` of `a + [c] + b`, where `a` holds no `c`, is after `a`.
pub(crate) proof fn lemma_split_once_after(a: Seq<char>, b: Seq<char>, c: char)
    requires
        !a.contains(c),
    ensures
        split_once_seq(a + seq![c] + b, c) == Some((a, b)),
{
    let s = a + seq![c] + b;
    lemma_first_index_of(s, c);
    assert(s[a.len() as int] == c);
    match first_index_of(s, c) {
        Some(i) => {
            if i < a.len() {
                assert(s[i] == a[i]);
            }
            assert(i == a.len());
        },
        None => {},
    }
    assert(s.take(a.len() as int) =~= a);
    assert(s.skip(a.len() as int + 1) =~= b);
}

/// A URL ending in `/` + `r`, where `r` does not end in `.git`, does not
/// end in `.git`.
proof fn lemma_no_git_suffix(p: Seq<char>, r: Seq<char>)
    requires
        !has_suffix(r, ".git"@),
    ensures
        !has_suffix(p + "/"@ + r, ".git"@),
{
    broadcast use vstd::string::group_string_axioms;
    reveal_strlit(".git");
    reveal_strlit("/");
    let u = p + "/"@ + r;
    if has_suffix(u, ".git"@) {
        if r.len() >= 4 {
            assert(r.skip(r.len() - 4) =~= u.skip(u.len() - 4));
        } else {
            let k = u.len() - r.len() - 1;
            assert(u[k] == '/');
            assert(u.skip(u.len() - 4)[k - (u.len() - 4)] == '/');
        }
    }
}

/// An owner without `/` and a repository not ending in `.git` are read
/// back from their HTTPS and SSH URLs, with or without `.git`.
pub proof fn lemma_parse_github_owner_repo_roundtrip(owner: Seq<char>, repo: Seq<char>)
    requires
        !owner.contains('/'),
        !has_suffix(repo, ".git"@),
    ensures
        spec_parse_github_owner_repo("https://github.com/"@ + owner + "/"@ + repo) == Some((owner, repo)),
        spec_parse_github_owner_repo("https://github.com/"@ + owner + "/"@ + repo + ".git"@) == Some(
            (owner, repo),
        ),
        spec_parse_github_owner_repo("git@github.com:"@ + owner + "/"@ + repo) == Some((owner, repo)),
        spec_parse_github_owner_repo("git@github.com:"@ + owner + "/"@ + repo + ".git"@) == Some(
            (owner, repo),
        ),
{
    broadcast use vstd::string::group_string_axioms;
    reveal_strlit(".git");
    reveal_strlit("/");
    reveal_strlit("https://github.com/");
    reveal_strlit("git@github.com:");
    let h = "https://github.com/"@;
    let g = "git@github.com:"@;
    lemma_split_once_after(owner, repo, '/');
    assert(owner + "/"@ + repo =~= owner + seq!['/'] + repo);
    let uh = h + owner + "/"@ + repo;
    let ug = g + owner + "/"@ + repo;
    lemma_no_git_suffix(h + owner, repo);
    lemma_no_git_suffix(g + owner, repo);
    assert(uh =~= (h + owner) + "/"@ + repo);
    assert(ug =~= (g + owner) + "/"@ + repo);
    assert(trim_end_matches_seq(uh, ".git"@) == uh);
    assert(trim_end_matches_seq(ug, ".git"@) == ug);
    let uh2 = uh + ".git"@;
    let ug2 = ug + ".git"@;
    assert(uh2.skip(uh2.len() - 4) =~= ".git"@);
    assert(uh2.take(uh2.len() - 4) =~= uh);
    assert(ug2.skip(ug2.len() - 4) =~= ".git"@);
    assert(ug2.take(ug2.len() - 4) =~= ug);
    assert(trim_end_matches_seq(uh2, ".git"@) == uh);
    assert(trim_end_matches_seq(ug2, ".git"@) == ug);
    assert(uh.take(h.len() as int) =~= h);
    assert(uh.skip(h.len() as int) =~= owner + "/"@ + repo);
    assert(ug.take(g.len() as int) =~= g);
    assert(ug.skip(g.len() as int) =~= owner + "/"@ + repo);
    assert(ug[0] != h[0]);
}

/// Updating a child of an object keeps the keys, in order, and every other
/// child.
proof fn lemma_update_child_object(es: Seq<(Seq<char>, Json)>, k: Seq<char>, f: spec_fn(Json) -> Json)
    requires
        keys_distinct(es),
    ensures
        update_child(Json::Object(es), k, f) matches Json::Object(r) && keys_distinct(r) && entry_keys(r)
            == entry_keys(es) && get_value(r, k) == match get_value(es, k) {
            Some(c) => Some(f(c)),
            None => None,
        } && forall|k2: Seq<char>|
            k2 != k ==> #[trigger] get_value(r, k2) == get_value(es, k2),
{
    match get_value(es, k) {
        Some(c) => {
            lemma_get_value_replace(es, k, f(c));
        },
        None => {},
    }
}

/// Sortedness by key depends on the keys alone.
proof fn lemma_sorted_same_keys(a: Seq<(Seq<char>, Json)>, b: Seq<(Seq<char>, Json)>)
    requires
        entry_keys(a) == entry_keys(b),
        sorted_by(a, entry_sort_key()),
    ensures
        sorted_by(b, entry_sort_key()),
{
    assert(a.len() == entry_keys(a).len());
    assert forall|i: int, j: int| 0 <= i < j < b.len() implies key_le(
        entry_sort_key()(#[trigger] b[i]),
        entry_sort_key()(#[trigger] b[j]),
    ) by {
        assert(entry_keys(a)[i] == entry_keys(b)[i]);
        assert(entry_keys(a)[j] == entry_keys(b)[j]);
        assert(key_le(entry_sort_key()(a[i]), entry_sort_key()(a[j])));
    }
}

/// The finished schema of a root object with distinct keys and no `$id`:
/// its top-level keys are in house-style order, it has `$id` exactly when
/// the configuration gives one, with that value, and it has the Tombi TOML
/// version hint.
pub proof fn lemma_generated_schema_top_level(
    config: SchemaConfig,
    root: Seq<(Seq<char>, Json)>,
    ids: Seq<Seq<char>>,
)
    requires
        keys_distinct(root),
        get_value(root, "$id"@) is None,
    ensures
        spec_generate_config_schema(config, Json::Object(root), ids) matches Json::Object(r) && sorted_by(
            r,
            entry_sort_key(),
        ) && get_value(r, "$id"@) == match spec_build_schema_id(config) {
            Some(id) => Some(Json::Str(id)),
            None => None,
        } && get_value(r, "x-tombi-toml-version"@) == Some(Json::Str("v1.1.0"@)),
{
    broadcast use vstd::string::group_string_axioms;
    reveal_strlit("$id");
    reveal_strlit("x-tombi-toml-version");
    reveal_strlit("properties");
    reveal_strlit("definitions");
    reveal_strlit("examples");
    assert("$id"@.len() != "x-tombi-toml-version"@.len());
    assert("$id"@.len() != "properties"@.len());
    assert("$id"@.len() != "definitions"@.len());
    assert("x-tombi-toml-version"@.len() != "properties"@.len());
    assert("x-tombi-toml-version"@.len() != "definitions"@.len());
    assert("$id"@.len() != "examples"@.len());
    assert("x-tombi-toml-version"@.len() != "examples"@.len());
    let id_val = match spec_build_schema_id(config) {
        Some(id) => Some(Json::Str(id)),
        None => None,
    };
    let tv = Json::Str("v1.1.0"@);
    let v1 = with_schema_id(Json::Object(root), config);
    let e1 = match v1 {
        Json::Object(e) => e,
        _ => root,
    };
    match spec_build_schema_id(config) {
        Some(id) => {
            lemma_get_value_insert(root, "$id"@, Json::Str(id));
        },
        None => {},
    }
    assert(keys_distinct(e1) && get_value(e1, "$id"@) == id_val);
    let e2 = insert_entry(e1, "x-tombi-toml-version"@, tv);
    lemma_get_value_insert(e1, "x-tombi-toml-version"@, tv);
    let v2 = Json::Object(e2);
    assert(get_value(e2, "$id"@) == id_val);
    assert(get_value(e2, "x-tombi-toml-version"@) == Some(tv));
    let v3 = spec_inject_model_examples(v2, ids);
    let e3 = match v3 {
        Json::Object(e) => e,
        _ => e2,
    };
    if ids.len() > 0 {
        let ex = strings_json(ids);
        lemma_update_child_object(
            e2,
            "properties"@,
            |p: Json|
                update_child(
                    update_child(p, "model"@, |m: Json| with_inserted(m, "examples"@, ex)),
                    "review_model"@,
                    |r: Json| with_inserted(r, "examples"@, ex),
                ),
        );
    }
    assert(keys_distinct(e3) && get_value(e3, "$id"@) == id_val && get_value(e3, "x-tombi-toml-version"@) == Some(tv));
    let v4 = spec_inject_feature_properties(v3);
    lemma_update_child_object(
        e3,
        "definitions"@,
        |d: Json|
            update_child(
                d,
                "FeaturesToml"@,
                |f: Json|
                    with_inserted(f, "properties"@, Json::Object(feature_properties(FEATURE_COUNT as nat))),
            ),
    );
    let e4 = match v4 {
        Json::Object(e) => e,
        _ => e3,
    };
    assert(keys_distinct(e4) && get_value(e4, "$id"@) == id_val && get_value(e4, "x-tombi-toml-version"@) == Some(tv));
    lemma_sort_json_object_get(e4);
    lemma_sort_by_key_props(sort_json_entries(e4), entry_sort_key());
    let e5 = sort_by_key(sort_json_entries(e4), entry_sort_key());
    assert(get_value(e5, "$id"@) == id_val);
    assert(get_value(e5, "x-tombi-toml-version"@) == Some(tv));
    let f6 = |p: Json| reorder_object(p, spec_config_toml_key_order());
    lemma_update_child_object(e5, "properties"@, f6);
    let e6 = match update_child(Json::Object(e5), "properties"@, f6) {
        Json::Object(e) => e,
        _ => e5,
    };
    lemma_sorted_same_keys(e5, e6);
    let f7 = |d: Json|
        update_child(
            d,
            "McpServerConfig"@,
            |m: Json|
                update_child(
                    m,
                    "properties"@,
                    |p: Json| reorder_object(p, spec_mcp_server_config_key_order()),
                ),
        );
    lemma_update_child_object(e6, "definitions"@, f7);
    let e7 = match update_child(Json::Object(e6), "definitions"@, f7) {
        Json::Object(e) => e,
        _ => e6,
    };
    lemma_sorted_same_keys(e6, e7);
    let f8 = |d: Json|
        update_child(
            d,
            "Notice"@,
            |n: Json| update_child(n, "properties"@, |p: Json| notice_properties(p)),
        );
    lemma_update_child_object(e7, "definitions"@, f8);
    let e8 = match update_child(Json::Object(e7), "definitions"@, f8) {
        Json::Object(e) => e,
        _ => e7,
    };
    lemma_sorted_same_keys(e7, e8);
    assert(spec_generate_config_schema(config, Json::Object(root), ids) == Json::Object(e8));
}


/// Inserting under `k` stores `v` under `k`, whatever else the entries hold.
proof fn lemma_get_value_inserted(es: Seq<(Seq<char>, Json)>, k: Seq<char>, v: Json)
    ensures
        get_value(insert_entry(es, k, v), k) == Some(v),
{
    lemma_key_index(es, k);
    match key_index(es, k) {
        Some(i) => {
            let r = es.update(i, (es[i].0, v));
            assert forall|j: int| 0 <= j < es.len() implies (#[trigger] es[j]).0 == r[j].0 by {}
            lemma_key_index_keys(es, r, k);
            assert(key_index(r, k) == Some(i));
            assert(r[i].1 == v);
        },
        None => {
            let r = es.push((k, v));
            lemma_key_index(r, k);
            assert(r[es.len() as int] == (k, v));
            if let Some(j) = key_index(r, k) {
                if j < es.len() {
                    assert(r[j] == es[j]);
                }
                assert(j == es.len());
            } else {
                assert(r[es.len() as int].0 == k);
            }
            assert(key_index(r, k) == Some(es.len() as int));
        },
    }
}

/// The model examples `ids` as a JSON array of strings.
pub open spec fn examples_of(ids: Seq<Seq<char>>) -> Json {
    Json::Array(ids.map_values(|s: Seq<char>| Json::Str(s)))
}

/// The property `k` after injection: if it was an object, it is now one
/// whose `examples` are exactly the model ids; otherwise it is unchanged.
pub open spec fn gets_examples(
    before: Seq<(Seq<char>, Json)>,
    after: Seq<(Seq<char>, Json)>,
    k: Seq<char>,
    ids: Seq<Seq<char>>,
) -> bool {
    match get_value(before, k) {
        Some(Json::Object(_)) => get_value(after, k) matches Some(Json::Object(m)) && get_value(
            m,
            "examples"@,
        ) == Some(examples_of(ids)),
        other => get_value(after, k) == other,
    }
}

/// Injecting model examples: with no ids the schema is unchanged; otherwise
/// both `model` and `review_model` (where they are objects) get exactly the
/// ids, in order, as their `examples`, and every other property is kept.
pub proof fn lemma_inject_model_examples(
    es: Seq<(Seq<char>, Json)>,
    ps: Seq<(Seq<char>, Json)>,
    ids: Seq<Seq<char>>,
)
    requires
        keys_distinct(es),
        keys_distinct(ps),
        get_value(es, "properties"@) == Some(Json::Object(ps)),
    ensures
        ids.len() == 0 ==> spec_inject_model_examples(Json::Object(es), ids) == Json::Object(es),
        ids.len() > 0 ==> (spec_inject_model_examples(Json::Object(es), ids) matches Json::Object(r)
            && get_value(r, "properties"@) matches Some(Json::Object(p2)) && gets_examples(
            ps,
            p2,
            "model"@,
            ids,
        ) && gets_examples(ps, p2, "review_model"@, ids) && forall|k: Seq<char>|
            k != "model"@ && k != "review_model"@ ==> #[trigger] get_value(p2, k) == get_value(ps, k)),
{
    broadcast use vstd::string::group_string_axioms;
    reveal_strlit("model");
    reveal_strlit("review_model");
    assert("model"@.len() != "review_model"@.len());
    if ids.len() > 0 {
        let ex = strings_json(ids);
        assert(ex == examples_of(ids));
        let f1 = |m: Json| with_inserted(m, "examples"@, ex);
        let f2 = |r: Json| with_inserted(r, "examples"@, ex);
        let fp = |p: Json| update_child(update_child(p, "model"@, f1), "review_model"@, f2);
        lemma_update_child_object(es, "properties"@, fp);
        lemma_update_child_object(ps, "model"@, f1);
        let p1 = match update_child(Json::Object(ps), "model"@, f1) {
            Json::Object(e) => e,
            _ => ps,
        };
        lemma_update_child_object(p1, "review_model"@, f2);
        let p2 = match update_child(Json::Object(p1), "review_model"@, f2) {
            Json::Object(e) => e,
            _ => p1,
        };
        assert(fp(Json::Object(ps)) == Json::Object(p2));
        if let Some(Json::Object(m)) = get_value(ps, "model"@) {
            lemma_get_value_inserted(m, "examples"@, ex);
        }
        if let Some(Json::Object(m)) = get_value(ps, "review_model"@) {
            lemma_get_value_inserted(m, "examples"@, ex);
        }
    }
}


/// Two features with the same key are the same feature.
proof fn lemma_feature_keys_distinct(f: Feature, g: Feature)
    ensures
        f.spec_key()@ == g.spec_key()@ ==> f == g,
{
    crate::features::lemma_feature_key_roundtrip(f);
    crate::features::lemma_feature_key_roundtrip(g);
}

/// The properties of the first `n` features: distinct keys, one per
/// feature, each with its property.
proof fn lemma_feature_properties(n: nat)
    requires
        n <= FEATURE_COUNT,
    ensures
        keys_distinct(feature_properties(n)),
        feature_properties(n).len() == n,
        forall|f: Feature| #[trigger] get_value(feature_properties(n), f.spec_key()@) == if f.spec_ordinal() < n {
            Some(feature_property(f))
        } else {
            None
        },
        forall|k: Seq<char>| #[trigger] get_value(feature_properties(n), k) is Some ==> exists|f: Feature|
            f.spec_ordinal() < n && f.spec_key()@ == k,
    decreases n,
{
    if n > 0 {
        let prev = feature_properties((n - 1) as nat);
        lemma_feature_properties((n - 1) as nat);
        let g = Feature::spec_from_ordinal((n - 1) as nat);
        crate::features::lemma_ordinal(g);
        assert(g.spec_ordinal() == n - 1);
        assert(get_value(prev, g.spec_key()@) is None);
        lemma_key_index(prev, g.spec_key()@);
        lemma_get_value_insert(prev, g.spec_key()@, feature_property(g));
        assert forall|f: Feature| #[trigger] get_value(feature_properties(n), f.spec_key()@) == if f.spec_ordinal() < n {
            Some(feature_property(f))
        } else {
            None
        } by {
            lemma_feature_keys_distinct(f, g);
            crate::features::lemma_ordinal(f);
            if f.spec_ordinal() == n - 1 {
                assert(Feature::spec_from_ordinal(f.spec_ordinal()) == f);
            }
        }
        assert forall|k: Seq<char>| #[trigger] get_value(feature_properties(n), k) is Some implies exists|f: Feature|
            f.spec_ordinal() < n && f.spec_key()@ == k by {
            if k != g.spec_key()@ {
                assert(get_value(prev, k) is Some);
                let f = choose|f: Feature| f.spec_ordinal() < n - 1 && f.spec_key()@ == k;
            }
        }
    }
}

/// Sorting an object with distinct keys keeps each key's value, sorted, and
/// the number of entries.
proof fn lemma_sort_object(es: Seq<(Seq<char>, Json)>, b: bool)
    requires
        keys_distinct(es),
    ensures
        sort_json(Json::Object(es), b) matches Json::Object(r) && keys_distinct(r) && r.len() == es.len()
            && forall|k: Seq<char>| #[trigger] get_value(r, k) == match get_value(es, k) {
            Some(v) => Some(sort_json(v, k == "examples"@)),
            None => None,
        },
{
    lemma_sort_json_object_get(es);
    lemma_sort_json_entries(es);
    lemma_sort_by_key_props(sort_json_entries(es), entry_sort_key());
}

/// The property that describes feature `f` in the finished schema: an
/// object of exactly three entries, a boolean `type`, the description
/// `[{stage label}] {feature description}`, and the feature's default.
pub open spec fn describes_feature(p: Json, f: Feature) -> bool {
    p matches Json::Object(es) && es.len() == 3 && get_value(es, "type"@) == Some(
        Json::Str("boolean"@),
    ) && get_value(es, "description"@) == Some(
        Json::Str("["@ + f.spec_stage().spec_schema_label()@ + "] "@ + f.spec_description()@),
    ) && get_value(es, "default"@) == Some(Json::Bool(f.spec_default_enabled()))
}

/// A feature's property, sorted, describes the feature.
proof fn lemma_sorted_feature_property(f: Feature, b: bool)
    ensures
        describes_feature(sort_json(feature_property(f), b), f),
{
    broadcast use vstd::string::group_string_axioms;
    reveal_strlit("type");
    reveal_strlit("description");
    reveal_strlit("default");
    assert("type"@.len() != "description"@.len());
    assert("type"@.len() != "default"@.len());
    assert("default"@.len() != "description"@.len());
    let es = feature_property(f)->Object_0;
    assert(keys_distinct(es));
    lemma_sort_object(es, b);
    lemma_key_index(es, "type"@);
    lemma_key_index(es, "description"@);
    lemma_key_index(es, "default"@);
    assert(get_value(es, "type"@) == Some(Json::Str("boolean"@)));
    assert(es[1].0 == "description"@);
    crate::json::lemma_key_index_unique(es, "description"@, 1);
    assert(get_value(es, "description"@) == Some(Json::Str(feature_description(f))));
    assert(get_value(es, "default"@) == Some(Json::Bool(f.spec_default_enabled())));
}

/// In the finished schema, the `FeaturesToml` definition (when the root
/// schema's definitions hold it as an object) has a `properties` object
/// with exactly one property per feature, under the feature's key, each a
/// boolean with the stage-labelled description and the feature's default.
pub proof fn lemma_generated_feature_properties(
    config: SchemaConfig,
    root: Seq<(Seq<char>, Json)>,
    defs: Seq<(Seq<char>, Json)>,
    ft: Seq<(Seq<char>, Json)>,
    ids: Seq<Seq<char>>,
)
    requires
        keys_distinct(root),
        keys_distinct(defs),
        keys_distinct(ft),
        get_value(root, "definitions"@) == Some(Json::Object(defs)),
        get_value(defs, "FeaturesToml"@) == Some(Json::Object(ft)),
    ensures
        spec_generate_config_schema(config, Json::Object(root), ids) matches Json::Object(r)
            && get_value(r, "definitions"@) matches Some(Json::Object(d))
            && get_value(d, "FeaturesToml"@) matches Some(Json::Object(t))
            && get_value(t, "properties"@) matches Some(Json::Object(props))
            && keys_distinct(props) && props.len() == FEATURE_COUNT
            && (forall|f: Feature| #[trigger] get_value(props, f.spec_key()@) matches Some(p) && describes_feature(p, f))
            && (forall|k: Seq<char>| #[trigger] get_value(props, k) is Some ==> exists|f: Feature| f.spec_key()@ == k),
{
    broadcast use vstd::string::group_string_axioms;
    reveal_strlit("$id");
    reveal_strlit("x-tombi-toml-version");
    reveal_strlit("properties");
    reveal_strlit("definitions");
    reveal_strlit("FeaturesToml");
    reveal_strlit("McpServerConfig");
    reveal_strlit("Notice");
    assert("$id"@.len() != "definitions"@.len());
    assert("x-tombi-toml-version"@.len() != "definitions"@.len());
    assert("properties"@.len() != "definitions"@.len());
    assert("McpServerConfig"@.len() != "FeaturesToml"@.len());
    assert("Notice"@.len() != "FeaturesToml"@.len());
    let dv = Json::Object(defs);
    // `$id` and the version hint.
    let v1 = with_schema_id(Json::Object(root), config);
    let e1 = match v1 {
        Json::Object(e) => e,
        _ => root,
    };
    match spec_build_schema_id(config) {
        Some(id) => {
            lemma_get_value_insert(root, "$id"@, Json::Str(id));
        },
        None => {},
    }
    assert(keys_distinct(e1) && get_value(e1, "definitions"@) == Some(dv));
    let e2 = insert_entry(e1, "x-tombi-toml-version"@, Json::Str("v1.1.0"@));
    lemma_get_value_insert(e1, "x-tombi-toml-version"@, Json::Str("v1.1.0"@));
    assert(keys_distinct(e2) && get_value(e2, "definitions"@) == Some(dv));
    // Model examples touch `properties` only.
    let v3 = spec_inject_model_examples(Json::Object(e2), ids);
    let e3 = match v3 {
        Json::Object(e) => e,
        _ => e2,
    };
    if ids.len() > 0 {
        let ex = strings_json(ids);
        lemma_update_child_object(
            e2,
            "properties"@,
            |p: Json|
                update_child(
                    update_child(p, "model"@, |m: Json| with_inserted(m, "examples"@, ex)),
                    "review_model"@,
                    |r: Json| with_inserted(r, "examples"@, ex),
                ),
        );
    }
    assert(keys_distinct(e3) && get_value(e3, "definitions"@) == Some(dv));
    // Feature properties.
    let fpv = Json::Object(feature_properties(FEATURE_COUNT as nat));
    let ff = |f: Json| with_inserted(f, "properties"@, fpv);
    let fd = |d: Json| update_child(d, "FeaturesToml"@, ff);
    lemma_update_child_object(e3, "definitions"@, fd);
    let e4 = match spec_inject_feature_properties(v3) {
        Json::Object(e) => e,
        _ => e3,
    };
    lemma_update_child_object(defs, "FeaturesToml"@, ff);
    let d4 = match fd(dv) {
        Json::Object(e) => e,
        _ => defs,
    };
    let ft4 = insert_entry(ft, "properties"@, fpv);
    lemma_get_value_insert(ft, "properties"@, fpv);
    assert(get_value(e4, "definitions"@) == Some(Json::Object(d4)));
    assert(get_value(d4, "FeaturesToml"@) == Some(Json::Object(ft4)));
    lemma_feature_properties(FEATURE_COUNT as nat);
    let fp = feature_properties(FEATURE_COUNT as nat);
    // The house-style sort.
    let v5 = spec_sort_json_keys(Json::Object(e4));
    lemma_sort_object(e4, false);
    let e5 = v5->Object_0;
    lemma_sort_object(d4, false);
    let d5 = sort_json(Json::Object(d4), false)->Object_0;
    lemma_sort_object(ft4, false);
    let ft5 = sort_json(Json::Object(ft4), false)->Object_0;
    lemma_sort_object(fp, false);
    let fp5 = sort_json(fpv, false)->Object_0;
    assert(get_value(e5, "definitions"@) == Some(Json::Object(d5)));
    assert(get_value(d5, "FeaturesToml"@) == Some(Json::Object(ft5)));
    assert(get_value(ft5, "properties"@) == Some(Json::Object(fp5)));
    // The property orders leave `FeaturesToml` alone.
    let f6 = |p: Json| reorder_object(p, spec_config_toml_key_order());
    lemma_update_child_object(e5, "properties"@, f6);
    let e6 = update_child(Json::Object(e5), "properties"@, f6)->Object_0;
    assert(get_value(e6, "definitions"@) == Some(Json::Object(d5)));
    let fm = |m: Json|
        update_child(m, "properties"@, |p: Json| reorder_object(p, spec_mcp_server_config_key_order()));
    let f7 = |d: Json| update_child(d, "McpServerConfig"@, fm);
    lemma_update_child_object(e6, "definitions"@, f7);
    let e7 = update_child(Json::Object(e6), "definitions"@, f7)->Object_0;
    lemma_update_child_object(d5, "McpServerConfig"@, fm);
    let d7 = f7(Json::Object(d5))->Object_0;
    assert(get_value(e7, "definitions"@) == Some(Json::Object(d7)));
    assert(get_value(d7, "FeaturesToml"@) == Some(Json::Object(ft5)));
    let fnp = |n: Json| update_child(n, "properties"@, |p: Json| notice_properties(p));
    let f8 = |d: Json| update_child(d, "Notice"@, fnp);
    lemma_update_child_object(e7, "definitions"@, f8);
    let e8 = update_child(Json::Object(e7), "definitions"@, f8)->Object_0;
    lemma_update_child_object(d7, "Notice"@, fnp);
    let d8 = f8(Json::Object(d7))->Object_0;
    assert(get_value(e8, "definitions"@) == Some(Json::Object(d8)));
    assert(get_value(d8, "FeaturesToml"@) == Some(Json::Object(ft5)));
    assert(spec_generate_config_schema(config, Json::Object(root), ids) == Json::Object(e8));
    // Each feature's property.
    assert forall|f: Feature| #[trigger] get_value(fp5, f.spec_key()@) matches Some(p) && describes_feature(p, f) by {
        crate::features::lemma_ordinal(f);
        assert(get_value(fp, f.spec_key()@) == Some(feature_property(f)));
        lemma_sorted_feature_property(f, f.spec_key()@ == "examples"@);
    }
    assert forall|k: Seq<char>| #[trigger] get_value(fp5, k) is Some implies exists|f: Feature| f.spec_key()@ == k by {
        assert(get_value(fp, k) is Some);
        let f = choose|f: Feature| f.spec_ordinal() < FEATURE_COUNT && f.spec_key()@ == k;
    }
}

} // verus!
