use codex_config_schema::json::JsonMap;
use codex_config_schema::json::JsonValue;
use codex_config_schema::json_sort::key_rank;
use codex_config_schema::json_sort::sort_json_keys;

fn s(x: &str) -> JsonValue {
    JsonValue::Str(x.to_string())
}

fn n(x: &str) -> JsonValue {
    JsonValue::Number(x.to_string())
}

fn obj(entries: Vec<(&str, JsonValue)>) -> JsonValue {
    let mut m = JsonMap::new();
    for (k, v) in entries {
        m.insert(k.to_string(), v);
    }
    JsonValue::Object(m)
}

fn keys(v: &JsonValue) -> Vec<String> {
    v.as_object().unwrap().keys()
}

#[test]
fn test_key_rank_ordering() {
    // Verify priority keys have correct relative ordering
    assert!(key_rank("$schema").unwrap() < key_rank("$id").unwrap());
    assert!(key_rank("$id").unwrap() < key_rank("name").unwrap());
    assert!(key_rank("name").unwrap() < key_rank("title").unwrap());
    assert!(key_rank("title").unwrap() < key_rank("description").unwrap());
    assert!(key_rank("description").unwrap() < key_rank("type").unwrap());
    assert!(key_rank("type").unwrap() < key_rank("additionalProperties").unwrap());
    assert!(key_rank("properties").unwrap() < key_rank("required").unwrap());
    assert!(key_rank("required").unwrap() < key_rank("definitions").unwrap());

    // Non-priority keys should return None
    assert!(key_rank("foo").is_none());
    assert!(key_rank("bar").is_none());
}

#[test]
fn test_sort_json_keys_basic() {
    let input = obj(vec![
        ("properties", obj(vec![("a", n("1"))])),
        ("type", s("object")),
        ("title", s("Test")),
    ]);
    let sorted = sort_json_keys(input);
    // title (11), type (20), properties (40)
    assert_eq!(keys(&sorted), vec!["title", "type", "properties"]);
}

#[test]
fn test_sort_json_keys_with_schema_meta() {
    let input = obj(vec![
        ("type", s("object")),
        ("$id", s("https://example.com/schema")),
        ("$schema", s("https://json-schema.org/draft-07/schema")),
    ]);
    let sorted = sort_json_keys(input);
    // $schema (0), $id (1), type (20)
    assert_eq!(keys(&sorted), vec!["$schema", "$id", "type"]);
}

#[test]
fn test_sort_json_keys_nested() {
    let input = obj(vec![
        (
            "properties",
            obj(vec![(
                "name",
                obj(vec![
                    ("default", s("test")),
                    ("type", s("string")),
                    ("description", s("The name")),
                ]),
            )]),
        ),
        ("type", s("object")),
    ]);
    let sorted = sort_json_keys(input);
    // description (12), type (20), default (47)
    let name_prop = sorted.get("properties").unwrap().get("name").unwrap();
    assert_eq!(keys(name_prop), vec!["description", "type", "default"]);
}

#[test]
fn test_sort_json_keys_mcp_tool() {
    let input = obj(vec![
        ("inputSchema", obj(vec![("type", s("object"))])),
        ("description", s("A tool")),
        ("title", s("My Tool")),
        ("name", s("my-tool")),
    ]);
    let sorted = sort_json_keys(input);
    // name (10), title (11), description (12), inputSchema (50)
    assert_eq!(keys(&sorted), vec!["name", "title", "description", "inputSchema"]);
}

#[test]
fn test_sort_json_keys_examples_sorted() {
    let input = obj(vec![(
        "examples",
        JsonValue::Array(vec![s("zebra"), s("apple"), s("mango")]),
    )]);
    let sorted = sort_json_keys(input);
    let examples = sorted.get("examples").unwrap().as_array().unwrap();
    assert_eq!(examples, &vec![s("apple"), s("mango"), s("zebra")]);
}

#[test]
fn test_sort_json_keys_preserves_non_example_arrays() {
    let input = obj(vec![(
        "required",
        JsonValue::Array(vec![s("zebra"), s("apple"), s("mango")]),
    )]);
    let sorted = sort_json_keys(input);
    let required = sorted.get("required").unwrap().as_array().unwrap();
    // Order should be preserved for non-examples arrays
    assert_eq!(required, &vec![s("zebra"), s("apple"), s("mango")]);
}

#[test]
fn test_sort_json_keys_unknown_keys_alphabetical() {
    let input = obj(vec![("zebra", n("1")), ("apple", n("2")), ("banana", n("3"))]);
    let sorted = sort_json_keys(input);
    assert_eq!(keys(&sorted), vec!["apple", "banana", "zebra"]);
}

#[test]
fn unranked_keys_follow_every_prioritized_key_but_definitions() {
    let input = obj(vec![
        ("zebra", n("1")),
        ("$defs", obj(vec![])),
        ("outputSchema", obj(vec![])),
        ("alpha", n("2")),
        ("annotations", obj(vec![])),
        ("inputSchema", obj(vec![])),
    ]);
    let sorted = sort_json_keys(input);
    assert_eq!(
        keys(&sorted),
        vec!["inputSchema", "outputSchema", "annotations", "alpha", "zebra", "$defs"]
    );

    let sorted = sort_json_keys(obj(vec![("zebra", n("1")), ("outputSchema", obj(vec![]))]));
    assert_eq!(keys(&sorted), vec!["outputSchema", "zebra"]);
}
