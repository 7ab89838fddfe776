use dyn_plug::json::{json_quote, json_string_array};
use dyn_plug::plugin::Plugin;
use dyn_plug::plugins::{apply_text_operation, build_response, PluginA, PluginB, PluginC};

#[test]
fn plugin_a_metadata() {
    let plugin = PluginA::new();
    assert_eq!(plugin.name(), "plugin_a");
    assert_eq!(plugin.version(), "0.1.0");
    assert!(plugin.description().contains("uppercase"));
}

#[test]
fn plugin_a_uppercase() {
    let plugin = PluginA::new();
    let out = plugin
        .execute("{\"operation\": \"uppercase\", \"text\": \"hello world\"}")
        .unwrap();
    assert_eq!(
        out,
        "{\"input\":\"hello world\",\"operation\":\"uppercase\",\"output\":\"HELLO WORLD\"}"
    );
}

#[test]
fn plugin_a_lowercase() {
    let plugin = PluginA::new();
    let out = plugin
        .execute("{\"operation\": \"lowercase\", \"text\": \"WORLD\"}")
        .unwrap();
    assert_eq!(
        out,
        "{\"input\":\"WORLD\",\"operation\":\"lowercase\",\"output\":\"world\"}"
    );
}

#[test]
fn plugin_a_reverse() {
    let plugin = PluginA::new();
    let out = plugin
        .execute("{\"operation\": \"reverse\", \"text\": \"abc\"}")
        .unwrap();
    assert_eq!(out, "{\"input\":\"abc\",\"operation\":\"reverse\",\"output\":\"cba\"}");
}

#[test]
fn plugin_a_errors() {
    let plugin = PluginA::new();

    let err = plugin.execute("not json").unwrap_err();
    assert!(err.starts_with("Invalid JSON input: "));

    let err = plugin.execute("{\"text\": \"x\"}").unwrap_err();
    assert_eq!(err, "Missing 'operation' field");

    let err = plugin.execute("{\"operation\": \"uppercase\"}").unwrap_err();
    assert_eq!(err, "Missing 'text' field");

    let err = plugin
        .execute("{\"operation\": \"rot13\", \"text\": \"x\"}")
        .unwrap_err();
    assert_eq!(
        err,
        "Unknown operation: rot13. Supported operations: uppercase, lowercase, reverse"
    );
}

#[test]
fn apply_text_operation_cases() {
    assert_eq!(apply_text_operation("uppercase", "hello").unwrap(), "HELLO");
    assert_eq!(apply_text_operation("lowercase", "HeLLo").unwrap(), "hello");
    assert_eq!(apply_text_operation("reverse", "ab c").unwrap(), "c ba");
    assert_eq!(apply_text_operation("reverse", "").unwrap(), "");
    assert!(apply_text_operation("shuffle", "x").is_none());
}

#[test]
fn plugin_b_metadata() {
    // the numeric capability's arithmetic lives with the host; the
    // type itself is constructible
    let _plugin = PluginB::new();
}

#[test]
fn plugin_c_metadata() {
    let plugin = PluginC::new();
    assert_eq!(plugin.name(), "plugin_c");
    assert_eq!(plugin.version(), "0.1.0");
    assert!(plugin.description().contains("JSON"));
}

#[test]
fn plugin_c_minify_and_format() {
    let plugin = PluginC::new();

    let out = plugin
        .execute(
            "{\"operation\": \"minify\", \"data\": \"{\\\"a\\\": 1, \\\"b\\\": [1, 2]}\"}",
        )
        .unwrap();
    assert!(out.contains("\"operation\":\"minify\""));
    assert!(out.contains("{\\\"a\\\":1,\\\"b\\\":[1,2]}"));

    let out = plugin
        .execute("{\"operation\": \"format\", \"data\": \"{\\\"a\\\":1}\"}")
        .unwrap();
    assert!(out.contains("\"operation\":\"format\""));
}

#[test]
fn plugin_c_validate() {
    let plugin = PluginC::new();

    let out = plugin
        .execute("{\"operation\": \"validate\", \"data\": \"[1, 2, 3]\"}")
        .unwrap();
    assert!(out.contains("Valid JSON"));

    let out = plugin
        .execute("{\"operation\": \"validate\", \"data\": \"[1, 2\"}")
        .unwrap();
    assert!(out.contains("Invalid JSON: "));
}

#[test]
fn plugin_c_query() {
    let plugin = PluginC::new();

    let out = plugin
        .execute(
            "{\"operation\": \"query\", \"data\": \"{\\\"user\\\":{\\\"name\\\":\\\"Ada\\\"}}\", \"path\": \"user.name\"}",
        )
        .unwrap();
    assert!(out.contains("\\\"Ada\\\""));

    let out = plugin
        .execute(
            "{\"operation\": \"query\", \"data\": \"{\\\"items\\\":[10,20]}\", \"path\": \"items.1\"}",
        )
        .unwrap();
    assert!(out.contains("\"output\":\"20\""));

    let out = plugin
        .execute(
            "{\"operation\": \"query\", \"data\": \"{\\\"a\\\":1}\", \"path\": \"missing\"}",
        )
        .unwrap();
    assert!(out.contains("\"output\":\"null\""));
}

#[test]
fn plugin_c_keys_and_type() {
    let plugin = PluginC::new();

    let out = plugin
        .execute(
            "{\"operation\": \"keys\", \"data\": \"{\\\"a\\\":1,\\\"b\\\":2}\"}",
        )
        .unwrap();
    assert!(out.contains("[\\\"a\\\",\\\"b\\\"]"));

    let out = plugin
        .execute("{\"operation\": \"type\", \"data\": \"[1]\"}")
        .unwrap();
    assert!(out.contains("\"output\":\"array\""));

    let out = plugin
        .execute("{\"operation\": \"type\", \"data\": \"null\"}")
        .unwrap();
    assert!(out.contains("\"output\":\"null\""));
}

#[test]
fn plugin_c_errors() {
    let plugin = PluginC::new();

    let err = plugin.execute("nope").unwrap_err();
    assert!(err.starts_with("Invalid JSON input: "));

    let err = plugin.execute("{\"operation\": \"keys\"}").unwrap_err();
    assert_eq!(err, "Missing 'data' field");

    let err = plugin
        .execute("{\"operation\": \"query\", \"data\": \"{}\"}")
        .unwrap_err();
    assert_eq!(err, "Missing 'path' field for query operation");

    let err = plugin
        .execute("{\"operation\": \"zip\", \"data\": \"{}\"}")
        .unwrap_err();
    assert_eq!(
        err,
        "Unknown operation: zip. Supported operations: format, minify, validate, query, keys, type"
    );
}

#[test]
fn json_quote_escaping() {
    assert_eq!(json_quote("plain"), "\"plain\"");
    assert_eq!(json_quote("say \"hi\""), "\"say \\\"hi\\\"\"");
    assert_eq!(json_quote("back\\slash"), "\"back\\\\slash\"");
    assert_eq!(json_quote("line\nbreak\ttab"), "\"line\\nbreak\\ttab\"");
    assert_eq!(json_quote("\u{1}"), "\"\\u0001\"");
    assert_eq!(json_quote("\u{1f}"), "\"\\u001f\"");
    assert_eq!(json_quote(""), "\"\"");
    // agreement with the serializer itself
    assert_eq!(
        json_quote("mix \"q\" \\ \n \u{2} end"),
        serde_json::to_string("mix \"q\" \\ \n \u{2} end").unwrap()
    );
}

#[test]
fn json_string_array_matches_serializer() {
    let items: Vec<String> = vec![];
    assert_eq!(json_string_array(&items), "[]");

    let items = vec!["a".to_string()];
    assert_eq!(json_string_array(&items), "[\"a\"]");

    let items = vec!["a\"x".to_string(), "b".to_string(), "c\n".to_string()];
    assert_eq!(
        json_string_array(&items),
        serde_json::to_string(&items).unwrap()
    );
}

#[test]
fn build_response_matches_serializer_shape() {
    let out = build_response("uppercase", "a \"b\"", "A \"B\"");
    assert_eq!(
        out,
        "{\"input\":\"a \\\"b\\\"\",\"operation\":\"uppercase\",\"output\":\"A \\\"B\\\"\"}"
    );
}
