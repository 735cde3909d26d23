use codex_config_schema::features::all_feature_specs;
use codex_config_schema::generate::build_schema_id;
use codex_config_schema::generate::generate_config_schema;
use codex_config_schema::generate::inject_feature_properties;
use codex_config_schema::generate::inject_model_examples;
use codex_config_schema::generate::SchemaConfig;
use codex_config_schema::json::JsonMap;
use codex_config_schema::json::JsonValue;
use codex_config_schema::json_sort::sort_json_keys;
use codex_config_schema::ordering::config_toml_key_order;
use codex_config_schema::ordering::mcp_server_config_key_order;
use codex_config_schema::ordering::notice_key_order;
use codex_config_schema::ordering::reorder_config_toml_properties;
use codex_config_schema::ordering::reorder_mcp_server_config_properties;
use codex_config_schema::ordering::reorder_notice_properties;
use codex_config_schema::schema_transforms::flatten_mcp_server_config;

fn s(x: &str) -> JsonValue {
    JsonValue::Str(x.to_string())
}

fn obj(entries: Vec<(&str, JsonValue)>) -> JsonValue {
    let mut m = JsonMap::new();
    for (k, v) in entries {
        m.insert(k.to_string(), v);
    }
    JsonValue::Object(m)
}

fn typed(t: &str) -> JsonValue {
    obj(vec![("type", s(t))])
}

fn strings(xs: &[&str]) -> JsonValue {
    JsonValue::Array(xs.iter().map(|x| s(x)).collect())
}

fn keys(v: &JsonValue) -> Vec<String> {
    v.as_object().unwrap().keys()
}

/// The MCP server configuration as the schema generator emits it: shared
/// properties and an `anyOf` over the transports.
fn raw_mcp_server_config() -> JsonValue {
    obj(vec![
        ("type", s("object")),
        (
            "properties",
            obj(vec![
                ("enabled", typed("boolean")),
                ("startup_timeout_sec", typed("number")),
                ("tool_timeout_sec", typed("number")),
                ("enabled_tools", typed("array")),
                ("disabled_tools", typed("array")),
            ]),
        ),
        (
            "anyOf",
            JsonValue::Array(vec![
                obj(vec![
                    ("type", s("object")),
                    (
                        "properties",
                        obj(vec![
                            ("command", typed("string")),
                            ("args", typed("array")),
                            ("env", typed("object")),
                            ("env_vars", typed("array")),
                            ("cwd", typed("string")),
                        ]),
                    ),
                    ("required", strings(&["command"])),
                ]),
                obj(vec![
                    ("type", s("object")),
                    (
                        "properties",
                        obj(vec![
                            ("url", typed("string")),
                            ("bearer_token_env_var", typed("string")),
                            ("http_headers", typed("object")),
                            ("env_http_headers", typed("object")),
                        ]),
                    ),
                    ("required", strings(&["url"])),
                ]),
            ]),
        ),
        ("additionalProperties", JsonValue::Bool(false)),
        ("required", strings(&["enabled"])),
    ])
}

/// A root schema of the config shaped as the schema generator emits it
/// (with the MCP server configuration flattened by the transform).
fn raw_root_schema() -> JsonValue {
    let mut props = JsonMap::new();
    let mut order: Vec<&str> = config_toml_key_order();
    order.reverse();
    for k in order {
        let v = if k == "tools" {
            obj(vec![("deprecated", JsonValue::Bool(true)), ("type", s("object"))])
        } else {
            typed("string")
        };
        props.insert(k.to_string(), v);
    }
    let mut mcp = raw_mcp_server_config();
    flatten_mcp_server_config(&mut mcp);
    let mut notice_props = JsonMap::new();
    let mut notice_order: Vec<&str> = notice_key_order();
    notice_order.reverse();
    for k in notice_order {
        notice_props.insert(k.to_string(), typed("boolean"));
    }
    obj(vec![
        ("type", s("object")),
        ("title", s("ConfigToml")),
        ("description", s("Base config deserialized from ~/.codex/config.toml.")),
        ("properties", JsonValue::Object(props)),
        (
            "definitions",
            obj(vec![
                ("McpServerConfig", mcp),
                (
                    "Notice",
                    obj(vec![
                        ("type", s("object")),
                        ("x-tombi-table-keys-order", s("schema")),
                        ("properties", JsonValue::Object(notice_props)),
                    ]),
                ),
                (
                    "FeaturesToml",
                    obj(vec![("type", s("object")), ("additionalProperties", typed("boolean"))]),
                ),
                ("ToolsToml", obj(vec![("deprecated", JsonValue::Bool(true)), ("type", s("object"))])),
            ]),
        ),
        ("$schema", s("http://json-schema.org/draft-07/schema#")),
    ])
}

fn picker_model_ids() -> Vec<String> {
    vec!["gpt-5.2-codex".to_string(), "gpt-5.1-codex-max".to_string(), "gpt-5.1-codex-mini".to_string()]
}

fn generate(config: &SchemaConfig) -> JsonValue {
    generate_config_schema(config, raw_root_schema(), &picker_model_ids())
}

fn test_config() -> SchemaConfig {
    SchemaConfig::default()
}

#[test]
fn test_generate_config_schema() {
    let schema = generate(&test_config());
    let props = schema.get("properties").unwrap();
    // Verify it contains expected top-level properties
    assert!(props.get("model").is_some());
    assert!(props.get("approval_policy").is_some());
    assert!(props.get("sandbox_mode").is_some());
    assert!(props.get("mcp_servers").is_some());
    assert!(props.get("profiles").is_some());
    assert!(props.get("features").is_some());
}

#[test]
fn test_schema_is_deterministic() {
    let schema1 = generate(&test_config());
    let schema2 = generate(&test_config());
    assert_eq!(schema1, schema2, "Schema output should be deterministic");
}

#[test]
fn test_schema_keys_use_house_style_ordering() {
    let schema = generate(&test_config());
    let keys = keys(&schema);
    let pos = |name: &str| keys.iter().position(|k| k == name);
    let schema_pos = pos("$schema");
    let title_pos = pos("title");
    let desc_pos = pos("description");
    let type_pos = pos("type");
    let props_pos = pos("properties");
    let defs_pos = pos("definitions");
    if let (Some(s), Some(t)) = (schema_pos, title_pos) {
        assert!(s < t, "$schema should come before title");
    }
    if let (Some(t), Some(d)) = (title_pos, desc_pos) {
        assert!(t < d, "title should come before description");
    }
    if let (Some(d), Some(t)) = (desc_pos, type_pos) {
        assert!(d < t, "description should come before type");
    }
    if let (Some(t), Some(p)) = (type_pos, props_pos) {
        assert!(t < p, "type should come before properties");
    }
    if let (Some(p), Some(d)) = (props_pos, defs_pos) {
        assert!(p < d, "properties should come before definitions");
    }
}

#[test]
fn test_mcp_server_config_is_flattened() {
    let schema = generate(&test_config());
    let defs = schema.get("definitions").unwrap();
    let mcp_config = defs.get("McpServerConfig").unwrap();
    let props = mcp_config.get("properties").unwrap();
    assert!(props.get("command").is_some(), "should have stdio command property");
    assert!(props.get("url").is_some(), "should have http url property");
    let mcp = mcp_config.as_object().unwrap();
    assert!(mcp.contains_key("oneOf"), "McpServerConfig should have oneOf constraint");
    assert!(!mcp.contains_key("anyOf"), "McpServerConfig should not have anyOf after transform");
}

#[test]
fn test_features_toml_allows_additional_properties() {
    let schema = generate(&test_config());
    let defs = schema.get("definitions").unwrap();
    let features = defs.get("FeaturesToml").unwrap();
    assert!(
        features.as_object().unwrap().contains_key("additionalProperties"),
        "FeaturesToml should have additionalProperties"
    );
    let add_props = features.get("additionalProperties").unwrap();
    assert_eq!(
        add_props.get("type").unwrap(),
        &s("boolean"),
        "additionalProperties should be boolean type"
    );
}

#[test]
fn test_schema_id_with_github_https() {
    let config = SchemaConfig {
        repo_url: Some("https://github.com/kjanat/codex.git".to_string()),
        default_branch: Some("master".to_string()),
        schema_path: "codex-cli/config.schema.json".to_string(),
    };
    let schema = generate(&config);
    let id = schema.get("$id").expect("should have $id");
    assert_eq!(
        id,
        &s("https://raw.githubusercontent.com/kjanat/codex/master/codex-cli/config.schema.json")
    );
}

#[test]
fn test_schema_id_with_github_ssh() {
    let config = SchemaConfig {
        repo_url: Some("git@github.com:openai/codex.git".to_string()),
        default_branch: Some("main".to_string()),
        schema_path: "codex-cli/config.schema.json".to_string(),
    };
    let schema = generate(&config);
    let id = schema.get("$id").expect("should have $id");
    assert_eq!(
        id,
        &s("https://raw.githubusercontent.com/openai/codex/main/codex-cli/config.schema.json")
    );
}

#[test]
fn test_schema_id_omitted_for_non_github() {
    let config = SchemaConfig {
        repo_url: Some("https://gitlab.com/user/repo.git".to_string()),
        default_branch: Some("main".to_string()),
        schema_path: "codex-cli/config.schema.json".to_string(),
    };
    let schema = generate(&config);
    assert!(schema.get("$id").is_none(), "should not have $id for non-GitHub repo");
}

#[test]
fn test_schema_id_omitted_when_no_repo_url() {
    let config = SchemaConfig { repo_url: None, ..Default::default() };
    let schema = generate(&config);
    assert!(schema.get("$id").is_none(), "should not have $id without repo_url");
}

#[test]
fn test_schema_id_uses_defaults() {
    let config = SchemaConfig::default();
    let schema = generate(&config);
    let id = schema.get("$id").expect("should have $id");
    assert_eq!(
        id,
        &s("https://raw.githubusercontent.com/openai/codex/main/codex-cli/config.schema.json")
    );
}

#[test]
fn test_schema_id_omitted_when_no_branch() {
    let config = SchemaConfig {
        repo_url: Some("https://github.com/user/repo".to_string()),
        default_branch: None,
        schema_path: "schema.json".to_string(),
    };
    let schema = generate(&config);
    assert!(schema.get("$id").is_none(), "should not have $id without default_branch");
}

#[test]
fn test_model_examples_derived_from_presets() {
    let schema = generate(&test_config());
    let props = schema.get("properties").unwrap();
    let model = props.get("model").unwrap();
    let examples = model.get("examples").expect("model should have examples");
    let examples_arr = examples.as_array().unwrap();
    assert!(examples_arr.contains(&s("gpt-5.2-codex")), "should contain gpt-5.2-codex");
    assert!(examples_arr.contains(&s("gpt-5.1-codex-max")), "should contain gpt-5.1-codex-max");
    let review_model = props.get("review_model").unwrap();
    let review_examples = review_model.get("examples").expect("review_model should have examples");
    assert!(
        !review_examples.as_array().unwrap().is_empty(),
        "review_model should have non-empty examples"
    );
}

#[test]
fn test_deprecated_tools_field_in_schema() {
    let schema = generate(&test_config());
    let props = schema.get("properties").unwrap();
    let tools = props.get("tools").expect("tools field should exist in schema");
    assert_eq!(tools.get("deprecated"), Some(&JsonValue::Bool(true)), "tools should be marked deprecated");
    let defs = schema.get("definitions").unwrap();
    let tools_toml = defs.get("ToolsToml").expect("ToolsToml definition should exist");
    assert_eq!(
        tools_toml.get("deprecated"),
        Some(&JsonValue::Bool(true)),
        "ToolsToml should be marked deprecated"
    );
}

fn sorted_strings(v: &[String]) -> Vec<String> {
    let mut v = v.to_vec();
    v.sort();
    v
}

fn owned(v: &[&str]) -> Vec<String> {
    v.iter().map(|x| x.to_string()).collect()
}

#[test]
fn test_mcp_server_config_properties_are_ordered() {
    let schema = generate(&test_config());
    let defs = schema.get("definitions").unwrap();
    let mcp_config = defs.get("McpServerConfig").unwrap();
    let key_order = mcp_config.get("x-tombi-table-keys-order").expect("should have x-tombi-table-keys-order");
    assert_eq!(key_order, &s("schema"), "should use schema ordering strategy");
    let prop_keys = keys(mcp_config.get("properties").unwrap());
    let expected_order = owned(&mcp_server_config_key_order());
    assert_eq!(sorted_strings(&prop_keys), sorted_strings(&expected_order));
    assert_eq!(
        prop_keys, expected_order,
        "McpServerConfig properties should be in the expected order for Tombi schema sorting"
    );
}

#[test]
fn test_config_toml_properties_are_ordered() {
    let schema = generate(&test_config());
    let prop_keys = keys(schema.get("properties").unwrap());
    let expected_order = owned(&config_toml_key_order());
    assert_eq!(sorted_strings(&prop_keys), sorted_strings(&expected_order));
    assert_eq!(
        prop_keys, expected_order,
        "ConfigToml properties should be in the expected order for Tombi schema sorting"
    );
}

#[test]
fn test_notice_properties_are_ordered() {
    let schema = generate(&test_config());
    let defs = schema.get("definitions").unwrap();
    let notice = defs.get("Notice").unwrap();
    let key_order = notice.get("x-tombi-table-keys-order").expect("should have x-tombi-table-keys-order");
    assert_eq!(key_order, &s("schema"), "should use schema ordering strategy");
    let properties = notice.get("properties").unwrap();
    let prop_keys = keys(properties);
    let expected_order = owned(&notice_key_order());
    assert_eq!(sorted_strings(&prop_keys), sorted_strings(&expected_order));
    assert_eq!(
        prop_keys, expected_order,
        "Notice properties should be in the expected order for Tombi schema sorting"
    );
    let model_migrations = properties.get("model_migrations").unwrap();
    assert_eq!(
        model_migrations.get("x-tombi-table-keys-order"),
        Some(&s("ascending")),
        "model_migrations should have ascending key order"
    );
}

// ---- further behaviour ----

#[test]
fn flatten_merges_transports_into_one_object() {
    let mut mcp = raw_mcp_server_config();
    flatten_mcp_server_config(&mut mcp);
    let m = mcp.as_object().unwrap();
    assert!(!m.contains_key("anyOf"));
    assert!(!m.contains_key("additionalProperties"));
    assert!(!m.contains_key("required"));
    assert_eq!(mcp.get("type"), Some(&s("object")));
    assert_eq!(mcp.get("x-tombi-table-keys-order"), Some(&s("schema")));
    assert_eq!(
        mcp.get("description"),
        Some(&s("MCP server configuration. Must specify either 'command' (stdio transport) or 'url' (HTTP transport)."))
    );
    let one_of = mcp.get("oneOf").unwrap().as_array().unwrap();
    assert_eq!(one_of.len(), 2);
    assert_eq!(one_of[0].get("required"), Some(&strings(&["command"])));
    assert_eq!(one_of[1].get("required"), Some(&strings(&["url"])));
    // variant properties first, in variant order, then the shared ones
    assert_eq!(
        keys(mcp.get("properties").unwrap()),
        vec![
            "command", "args", "env", "env_vars", "cwd", "url", "bearer_token_env_var", "http_headers",
            "env_http_headers", "enabled", "startup_timeout_sec", "tool_timeout_sec", "enabled_tools",
            "disabled_tools",
        ]
    );
    // a second run changes nothing
    let mut again = raw_mcp_server_config();
    flatten_mcp_server_config(&mut again);
    flatten_mcp_server_config(&mut again);
    assert_eq!(again, mcp);
}

#[test]
fn flatten_leaves_other_schemas_alone() {
    let mut plain = obj(vec![("type", s("string"))]);
    flatten_mcp_server_config(&mut plain);
    assert_eq!(plain, obj(vec![("type", s("string"))]));
    // shared properties but no http variant
    let mut one = obj(vec![
        ("properties", obj(vec![("enabled", typed("boolean")), ("enabled_tools", typed("array"))])),
        ("anyOf", JsonValue::Array(vec![obj(vec![("properties", obj(vec![("command", typed("string"))]))])])),
    ]);
    let before = obj(vec![
        ("properties", obj(vec![("enabled", typed("boolean")), ("enabled_tools", typed("array"))])),
        ("anyOf", JsonValue::Array(vec![obj(vec![("properties", obj(vec![("command", typed("string"))]))])])),
    ]);
    flatten_mcp_server_config(&mut one);
    assert_eq!(one, before);
    let mut not_object = JsonValue::Bool(true);
    flatten_mcp_server_config(&mut not_object);
    assert_eq!(not_object, JsonValue::Bool(true));
}

#[test]
fn reorder_puts_listed_keys_first_and_keeps_the_rest() {
    let mut schema = obj(vec![(
        "properties",
        obj(vec![("zzz", typed("string")), ("notify", typed("array")), ("model", typed("string"))]),
    )]);
    reorder_config_toml_properties(&mut schema);
    assert_eq!(keys(schema.get("properties").unwrap()), vec!["model", "notify", "zzz"]);
    assert_eq!(schema.get("properties").unwrap().get("notify"), Some(&typed("array")));
}

#[test]
fn reorder_without_target_changes_nothing() {
    let mut schema = obj(vec![("title", s("x"))]);
    reorder_config_toml_properties(&mut schema);
    reorder_mcp_server_config_properties(&mut schema);
    reorder_notice_properties(&mut schema);
    assert_eq!(schema, obj(vec![("title", s("x"))]));
}

#[test]
fn unlisted_properties_follow_in_swap_removal_order() {
    // "a", "b", "c" are not listed; removing "model" (first) moves "c" into
    // its place, so the remaining order is c, a, b.
    let mut schema = obj(vec![(
        "properties",
        obj(vec![("model", typed("string")), ("a", n1()), ("b", n1()), ("c", n1())]),
    )]);
    reorder_config_toml_properties(&mut schema);
    assert_eq!(keys(schema.get("properties").unwrap()), vec!["model", "c", "a", "b"]);
}

fn n1() -> JsonValue {
    JsonValue::Number("1".to_string())
}

#[test]
fn build_schema_id_formats_raw_url() {
    let config = SchemaConfig {
        repo_url: Some("https://github.com/a/b".to_string()),
        default_branch: Some("dev".to_string()),
        schema_path: "x/y.json".to_string(),
    };
    assert_eq!(
        build_schema_id(&config),
        Some("https://raw.githubusercontent.com/a/b/dev/x/y.json".to_string())
    );
}

#[test]
fn from_git_keeps_default_branch_when_unknown() {
    let c = SchemaConfig::from_git(Some((Some("git@github.com:x/y.git".to_string()), None)));
    assert_eq!(c.repo_url, Some("git@github.com:x/y.git".to_string()));
    assert_eq!(c.default_branch, Some("main".to_string()));
    let c = SchemaConfig::from_git(Some((None, Some("trunk".to_string()))));
    assert_eq!(c.repo_url, None);
    assert_eq!(c.default_branch, Some("trunk".to_string()));
    assert_eq!(c.schema_path, "codex-cli/config.schema.json");
}

#[test]
fn from_git_without_repository_uses_defaults() {
    let c = SchemaConfig::from_git(None);
    assert_eq!(c.repo_url, Some("https://github.com/openai/codex.git".to_string()));
    assert_eq!(c.default_branch, Some("main".to_string()));
    assert_eq!(c.schema_path, "codex-cli/config.schema.json");
}

#[test]
fn model_examples_need_ids() {
    let mut schema = obj(vec![("properties", obj(vec![("model", typed("string"))]))]);
    inject_model_examples(&mut schema, &Vec::new());
    assert_eq!(schema, obj(vec![("properties", obj(vec![("model", typed("string"))]))]));
    inject_model_examples(&mut schema, &vec!["m1".to_string()]);
    assert_eq!(schema.get("properties").unwrap().get("model").unwrap().get("examples"), Some(&strings(&["m1"])));
}

#[test]
fn feature_properties_describe_every_feature() {
    let mut schema = obj(vec![("definitions", obj(vec![("FeaturesToml", typed("object"))]))]);
    inject_feature_properties(&mut schema);
    let props = schema.get("definitions").unwrap().get("FeaturesToml").unwrap().get("properties").unwrap();
    let specs = all_feature_specs();
    assert_eq!(keys(props).len(), specs.len());
    let undo = props.get("undo").unwrap();
    assert_eq!(undo.get("type"), Some(&s("boolean")));
    assert_eq!(undo.get("description"), Some(&s("[Stable] Create a ghost commit at each turn.")));
    assert_eq!(undo.get("default"), Some(&JsonValue::Bool(false)));
    let ue = props.get("unified_exec").unwrap();
    assert_eq!(ue.get("description"), Some(&s("[Beta] Use the single unified PTY-backed exec tool.")));
    assert_eq!(keys(ue), vec!["type", "description", "default"]);
}

#[test]
fn generated_schema_sorts_nested_keys_and_examples() {
    let schema = generate(&test_config());
    let model = schema.get("properties").unwrap().get("model").unwrap();
    assert_eq!(keys(model), vec!["type", "examples"]);
    assert_eq!(
        model.get("examples"),
        Some(&strings(&["gpt-5.1-codex-max", "gpt-5.1-codex-mini", "gpt-5.2-codex"]))
    );
    assert_eq!(schema.get("x-tombi-toml-version"), Some(&s("v1.1.0")));
    let top = keys(&schema);
    assert_eq!(top[0], "$schema");
    assert_eq!(top[1], "$id");
    // sorting the finished schema again keeps its top-level order
    let again = sort_json_keys(generate(&test_config()));
    assert_eq!(keys(&again), top);
}

#[test]
fn config_key_order_has_no_repeats() {
    let order = config_toml_key_order();
    let mut sorted = order.clone();
    sorted.sort();
    sorted.dedup();
    assert_eq!(sorted.len(), order.len());
}
