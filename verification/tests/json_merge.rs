use aperio::config::merge_configs;
use aperio::json::{merge, Json, JsonMap};

fn text(s: &str) -> Json {
    Json::Str(s.to_string())
}

fn num(s: &str) -> Json {
    Json::Number(s.to_string())
}

fn obj(members: Vec<(&str, Json)>) -> Json {
    let mut m = JsonMap::new();
    for (k, v) in members {
        m.insert(k.to_string(), v);
    }
    Json::Object(m)
}

/// Renders a document with object members sorted by key, so that two
/// documents with the same members render alike.
fn canon(j: Json) -> String {
    match j {
        Json::Null => "null".to_string(),
        Json::Bool(b) => b.to_string(),
        Json::Number(n) => n,
        Json::Str(s) => format!("{:?}", s),
        Json::Array(items) => {
            let parts: Vec<String> = items.into_iter().map(canon).collect();
            format!("[{}]", parts.join(","))
        }
        Json::Object(m) => {
            let mut entries = m.into_entries();
            entries.sort_by(|a, b| a.0.cmp(&b.0));
            let parts: Vec<String> = entries
                .into_iter()
                .map(|(k, v)| format!("{:?}:{}", k, canon(v)))
                .collect();
            format!("{{{}}}", parts.join(","))
        }
    }
}

fn merged(target: Json, patch: Json) -> String {
    let mut t = target;
    merge(&mut t, patch);
    canon(t)
}

#[test]
fn merge_keeps_members_the_patch_does_not_name() {
    let target = obj(vec![("a", num("1")), ("b", text("x"))]);
    let patch = obj(vec![("b", text("y"))]);
    assert_eq!(merged(target, patch), r#"{"a":1,"b":"y"}"#);
}

#[test]
fn merge_null_member_deletes() {
    let target = obj(vec![("a", num("1")), ("b", text("x"))]);
    let patch = obj(vec![("a", Json::Null)]);
    assert_eq!(merged(target, patch), r#"{"b":"x"}"#);
}

#[test]
fn merge_null_member_for_absent_key_adds_nothing() {
    let target = obj(vec![("a", num("1"))]);
    let patch = obj(vec![("z", Json::Null)]);
    assert_eq!(merged(target, patch), r#"{"a":1}"#);
}

#[test]
fn merge_recurses_into_nested_objects() {
    let target = obj(vec![(
        "python",
        obj(vec![("version", text("3.12.0")), ("next_version", text("3.13.0"))]),
    )]);
    let patch = obj(vec![("python", obj(vec![("version", text("3.11.9"))]))]);
    assert_eq!(
        merged(target, patch),
        r#"{"python":{"next_version":"3.13.0","version":"3.11.9"}}"#
    );
}

#[test]
fn merge_non_object_patch_replaces() {
    let target = obj(vec![("a", num("1"))]);
    assert_eq!(merged(target, num("5")), "5");
    assert_eq!(merged(text("x"), Json::Array(vec![Json::Bool(true)])), "[true]");
}

#[test]
fn merge_object_patch_replaces_non_object_target() {
    let patch = obj(vec![("n", Json::Null), ("k", num("2"))]);
    assert_eq!(merged(num("1"), patch), r#"{"k":2,"n":null}"#);
}

#[test]
fn merge_new_object_member_is_inserted_whole() {
    let target = obj(vec![]);
    let patch = obj(vec![("k", obj(vec![("n", Json::Null)]))]);
    assert_eq!(merged(target, patch), r#"{"k":{"n":null}}"#);
}

#[test]
fn merge_arrays_are_replaced_not_merged() {
    let target = obj(vec![("a", Json::Array(vec![num("1"), num("2")]))]);
    let patch = obj(vec![("a", Json::Array(vec![num("3")]))]);
    assert_eq!(merged(target, patch), r#"{"a":[3]}"#);
}

#[test]
fn merge_empty_patch_is_identity() {
    let target = obj(vec![("a", num("1")), ("b", obj(vec![("c", Json::Null)]))]);
    let patch = obj(vec![]);
    assert_eq!(merged(target, patch), r#"{"a":1,"b":{"c":null}}"#);
}

#[test]
fn merge_twice_with_null_free_patch_is_same_as_once() {
    let make_target = || obj(vec![("a", num("1")), ("b", obj(vec![("c", num("2"))]))]);
    let make_patch = || obj(vec![("b", obj(vec![("d", num("3"))])), ("e", text("x"))]);
    let once = merged(make_target(), make_patch());
    let mut t = make_target();
    merge(&mut t, make_patch());
    merge(&mut t, make_patch());
    assert_eq!(canon(t), once);
}

#[test]
fn merge_configs_fills_missing_members_from_defaults() {
    let defaults = obj(vec![(
        "python",
        obj(vec![("version", text("3.12.0")), ("next_version", text("3.13.0"))]),
    )]);
    let user = obj(vec![("python", obj(vec![("default_version", text("3.11.0"))]))]);
    let merged = merge_configs(defaults, user);
    assert_eq!(
        canon(merged),
        r#"{"python":{"default_version":"3.11.0","next_version":"3.13.0","version":"3.12.0"}}"#
    );
}

#[test]
fn json_map_insert_replaces_and_remove_returns_member() {
    let mut m = JsonMap::new();
    m.insert("k".to_string(), num("1"));
    m.insert("k".to_string(), num("2"));
    assert!(m.contains_key(&"k".to_string()));
    let removed = m.remove(&"k".to_string());
    assert_eq!(removed.map(canon), Some("2".to_string()));
    assert!(!m.contains_key(&"k".to_string()));
    assert!(m.remove(&"k".to_string()).is_none());
    assert_eq!(m.into_entries().len(), 0);
}
