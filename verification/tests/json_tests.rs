use bearcds::json::{clone_json, merged, Json};
use bearcds::render::to_json_text;

fn obj(entries: Vec<(&str, Json)>) -> Json {
    Json::Obj(entries.into_iter().map(|(k, v)| (k.to_string(), v)).collect())
}

fn s(v: &str) -> Json {
    Json::Str(v.to_string())
}

#[test]
fn merge_empty_object_leaves_document_unchanged() {
    let doc = obj(vec![
        ("apps", obj(vec![
            ("layer4", obj(vec![("servers", obj(vec![]))])),
            ("http", obj(vec![("servers", obj(vec![("a", s("x"))]))])),
        ])),
    ]);
    let kept = merged(&doc, &obj(vec![]));
    assert_eq!(kept, doc);
}

#[test]
fn merge_nested_empty_subtree_leaves_sibling_blocks_untouched() {
    let doc = obj(vec![
        ("apps", obj(vec![
            ("layer4", obj(vec![("servers", obj(vec![("svc", s("tcp-target"))]))])),
            ("http", obj(vec![("servers", obj(vec![("vhost", s("route"))]))])),
        ])),
    ]);
    let overlay = obj(vec![
        ("apps", obj(vec![("http", obj(vec![("servers", obj(vec![]))]))])),
    ]);
    let out = merged(&doc, &overlay);
    // Merging an empty object into the servers subtree changes nothing at
    // all: in particular the TCP block survives intact.
    assert_eq!(out, doc);
}

#[test]
fn merge_replaces_non_object_values_wholesale() {
    let doc = obj(vec![("a", Json::Int(1)), ("b", Json::Arr(vec![Json::Int(1), Json::Int(2)]))]);
    let overlay = obj(vec![
        ("a", Json::Int(7)),
        ("b", Json::Arr(vec![Json::Int(9)])),
    ]);
    let out = merged(&doc, &overlay);
    assert_eq!(
        out,
        obj(vec![("a", Json::Int(7)), ("b", Json::Arr(vec![Json::Int(9)]))])
    );
}

#[test]
fn merge_appends_new_keys_in_override_order() {
    let doc = obj(vec![("a", Json::Int(1))]);
    let overlay = obj(vec![("c", Json::Int(3)), ("b", Json::Int(2))]);
    let out = merged(&doc, &overlay);
    assert_eq!(
        out,
        obj(vec![("a", Json::Int(1)), ("c", Json::Int(3)), ("b", Json::Int(2))])
    );
}

#[test]
fn merge_recurses_into_shared_object_keys() {
    let doc = obj(vec![("cfg", obj(vec![("x", Json::Int(1)), ("y", Json::Int(2))]))]);
    let overlay = obj(vec![("cfg", obj(vec![("y", Json::Int(5))]))]);
    let out = merged(&doc, &overlay);
    assert_eq!(
        out,
        obj(vec![("cfg", obj(vec![("x", Json::Int(1)), ("y", Json::Int(5))]))])
    );
}

#[test]
fn merge_onto_non_object_takes_override() {
    let out = merged(&Json::Int(3), &obj(vec![("a", Json::Int(1))]));
    assert_eq!(out, obj(vec![("a", Json::Int(1))]));
}

#[test]
fn clone_json_is_deep_and_exact() {
    let doc = obj(vec![
        ("a", Json::Arr(vec![Json::Null, Json::Bool(true), s("x")])),
        ("b", obj(vec![("c", Json::Int(-4))])),
    ]);
    assert_eq!(clone_json(&doc), doc);
}

#[test]
fn render_scalars() {
    assert_eq!(to_json_text(&Json::Null), "null");
    assert_eq!(to_json_text(&Json::Bool(true)), "true");
    assert_eq!(to_json_text(&Json::Bool(false)), "false");
    assert_eq!(to_json_text(&Json::Int(0)), "0");
    assert_eq!(to_json_text(&Json::Int(404)), "404");
    assert_eq!(to_json_text(&Json::Int(-17)), "-17");
    assert_eq!(to_json_text(&Json::Int(i64::MIN)), "-9223372036854775808");
}

#[test]
fn render_strings_escape_quotes_and_backslashes() {
    assert_eq!(to_json_text(&s("plain")), "\"plain\"");
    assert_eq!(to_json_text(&s("a\"b")), "\"a\\\"b\"");
    assert_eq!(to_json_text(&s("a\\b")), "\"a\\\\b\"");
    assert_eq!(to_json_text(&s("a\nb")), "\"a\\u000ab\"");
    assert_eq!(to_json_text(&s("\t")), "\"\\u0009\"");
}

#[test]
fn render_arrays_and_objects() {
    let doc = obj(vec![
        ("a", Json::Int(1)),
        ("b", Json::Arr(vec![s("x"), Json::Null])),
        ("c", obj(vec![])),
    ]);
    assert_eq!(to_json_text(&doc), "{\"a\":1,\"b\":[\"x\",null],\"c\":{}}");
    assert_eq!(to_json_text(&Json::Arr(vec![])), "[]");
}
