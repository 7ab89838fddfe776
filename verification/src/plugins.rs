//! The sample capabilities shipped with the host. Each one reads a
//! JSON request, does its work, and answers with a JSON object of the
//! operation, the input, and the output, in the minified form that
//! the JSON serializer would emit.
//!
//! The string capability and the JSON capability are implemented and
//! verified here; the numeric capability computes in floating point,
//! which stays outside the verified core, so only its type stands
//! here and the host carries its arithmetic.

use vstd::prelude::*;
use vstd::string::StringExecFns;
use crate::json::{
    json_array_get, json_as_str, json_error_message, json_get, json_kind, json_object_keys,
    json_parse, json_quote, json_quoted, json_string_array, json_to_string,
    json_to_string_pretty, JsonKind,
};
use crate::plugin::Plugin;
use crate::strutil::{
    lower_of, parse_usize, push_char, reverse_str, str_eq, to_lowercase_str, to_uppercase_str,
    upper_of,
};

verus! {

/// The response object of every sample capability, minified with the
/// keys in serializer order.
pub open spec fn response_text(operation: Seq<char>, input: Seq<char>, output: Seq<char>) -> Seq<
    char,
> {
    "{\"input\":"@ + json_quoted(input) + ",\"operation\":"@ + json_quoted(operation)
        + ",\"output\":"@ + json_quoted(output) + "}"@
}

/// Write the response object of one capability call.
pub fn build_response(operation: &str, input: &str, output: &str) -> (r: String)
    ensures
        r@ == response_text(operation@, input@, output@),
{
    String::from_str("{\"input\":").concat(json_quote(input).as_str()).concat(
        ",\"operation\":",
    ).concat(json_quote(operation).as_str()).concat(",\"output\":").concat(
        json_quote(output).as_str(),
    ).concat("}")
}

/// The text transformations the string capability offers, by name:
/// uppercase and lowercase as the host's case mapping has them, and
/// reverse as the exact reversal of the characters. Unknown names do
/// nothing.
pub fn apply_text_operation(operation: &str, text: &str) -> (r: Option<String>)
    ensures
        operation@ == "uppercase"@ ==> (r matches Some(s) && s@ == upper_of(text@)),
        operation@ == "lowercase"@ ==> (r matches Some(s) && s@ == lower_of(text@)),
        operation@ == "reverse"@ ==> (r matches Some(s) && s@ == text@.reverse()),
        (operation@ != "uppercase"@ && operation@ != "lowercase"@ && operation@ != "reverse"@)
            ==> r is None,
{
    proof {
        reveal_strlit("uppercase");
        reveal_strlit("lowercase");
        reveal_strlit("reverse");
        assert("uppercase"@[0] == 'u' && "lowercase"@[0] == 'l');
        assert("uppercase"@.len() == 9 && "lowercase"@.len() == 9 && "reverse"@.len() == 7);
        assert("uppercase"@ != "lowercase"@ && "uppercase"@ != "reverse"@ && "lowercase"@
            != "reverse"@);
    }
    if str_eq(operation, "uppercase") {
        Some(to_uppercase_str(text))
    } else if str_eq(operation, "lowercase") {
        Some(to_lowercase_str(text))
    } else if str_eq(operation, "reverse") {
        Some(reverse_str(text))
    } else {
        None
    }
}

/// The string field under a key of a parsed request, if it is there.
fn get_string_field(v: &serde_json::Value, key: &str) -> Option<String> {
    match json_get(v, key) {
        Some(field) => json_as_str(field),
        None => None,
    }
}

/// The string-processing capability: uppercase, lowercase, and
/// reverse over a `{"operation", "text"}` request.
pub struct PluginA;

impl PluginA {
    /// A fresh string-processing capability.
    pub fn new() -> (r: PluginA) {
        PluginA
    }
}

impl Plugin for PluginA {
    fn name(&self) -> &str {
        "plugin_a"
    }

    fn version(&self) -> &str {
        "0.1.0"
    }

    fn description(&self) -> &str {
        "String processing plugin with uppercase, lowercase, and reverse operations"
    }

    fn execute(&self, input: &str) -> Result<String, String> {
        let parsed = match json_parse(input) {
            Ok(v) => v,
            Err(e) => {
                return Err(
                    String::from_str("Invalid JSON input: ").concat(
                        json_error_message(&e).as_str(),
                    ),
                );
            },
        };
        let operation = match get_string_field(&parsed, "operation") {
            Some(s) => s,
            None => {
                return Err("Missing 'operation' field".to_owned());
            },
        };
        let text = match get_string_field(&parsed, "text") {
            Some(s) => s,
            None => {
                return Err("Missing 'text' field".to_owned());
            },
        };
        match apply_text_operation(operation.as_str(), text.as_str()) {
            Some(result) => Ok(
                build_response(operation.as_str(), text.as_str(), result.as_str()),
            ),
            None => Err(
                String::from_str("Unknown operation: ").concat(operation.as_str()).concat(
                    ". Supported operations: uppercase, lowercase, reverse",
                ),
            ),
        }
    }
}

/// The numeric-processing capability: add, subtract, multiply,
/// divide, power, and square root over a `{"operation", "numbers"}`
/// request. Its arithmetic runs in floating point, which stays with
/// the host; only the capability's type stands in the verified core.
pub struct PluginB;

impl PluginB {
    /// A fresh numeric-processing capability.
    pub fn new() -> (r: PluginB) {
        PluginB
    }
}

/// The JSON-processing capability: format, minify, validate, query,
/// keys, and type over a `{"operation", "data"}` request.
pub struct PluginC;

impl PluginC {
    /// A fresh JSON-processing capability.
    pub fn new() -> (r: PluginC) {
        PluginC
    }

    /// Walk a dot-separated path through a value: object steps go by
    /// key, array steps by decimal index, and anything else stops the
    /// walk.
    pub fn query_json_path<'a>(value: &'a serde_json::Value, path: &str) -> Option<
        &'a serde_json::Value,
    > {
        let n = path.unicode_len();
        let mut current = value;
        let mut segment = String::new();
        let mut i: usize = 0;
        while i < n
            invariant
                i <= n,
                n == path@.len(),
            decreases n - i,
        {
            if path.get_char(i) == '.' {
                current = match Self::descend(current, segment.as_str()) {
                    Some(next) => next,
                    None => {
                        return None;
                    },
                };
                segment = String::new();
            } else {
                push_char(&mut segment, path.get_char(i));
            }
            i = i + 1;
        }
        Self::descend(current, segment.as_str())
    }

    /// One step of a path walk.
    fn descend<'a>(value: &'a serde_json::Value, part: &str) -> Option<&'a serde_json::Value> {
        match json_kind(value) {
            JsonKind::Object => json_get(value, part),
            JsonKind::Array => match parse_usize(part) {
                Some(index) => json_array_get(value, index),
                None => None,
            },
            _ => None,
        }
    }

    /// The keys of an object value; other shapes have none.
    pub fn get_json_keys(value: &serde_json::Value) -> Vec<String> {
        match json_object_keys(value) {
            Some(keys) => keys,
            None => Vec::new(),
        }
    }

    /// The name of a value's shape.
    pub fn get_json_type(value: &serde_json::Value) -> (r: &'static str) {
        kind_name(json_kind(value))
    }
}

/// The name of each JSON shape.
pub fn kind_name(kind: JsonKind) -> (r: &'static str)
    ensures
        kind == JsonKind::Null ==> r@ == "null"@,
        kind == JsonKind::Boolean ==> r@ == "boolean"@,
        kind == JsonKind::Number ==> r@ == "number"@,
        kind == JsonKind::Text ==> r@ == "string"@,
        kind == JsonKind::Array ==> r@ == "array"@,
        kind == JsonKind::Object ==> r@ == "object"@,
{
    match kind {
        JsonKind::Null => "null",
        JsonKind::Boolean => "boolean",
        JsonKind::Number => "number",
        JsonKind::Text => "string",
        JsonKind::Array => "array",
        JsonKind::Object => "object",
    }
}

impl Plugin for PluginC {
    fn name(&self) -> &str {
        "plugin_c"
    }

    fn version(&self) -> &str {
        "0.1.0"
    }

    fn description(&self) -> &str {
        "JSON processing plugin with format, minify, validate, query, keys, and type operations"
    }

    fn execute(&self, input: &str) -> Result<String, String> {
        let parsed = match json_parse(input) {
            Ok(v) => v,
            Err(e) => {
                return Err(
                    String::from_str("Invalid JSON input: ").concat(
                        json_error_message(&e).as_str(),
                    ),
                );
            },
        };
        let operation = match get_string_field(&parsed, "operation") {
            Some(s) => s,
            None => {
                return Err("Missing 'operation' field".to_owned());
            },
        };
        let data_str = match get_string_field(&parsed, "data") {
            Some(s) => s,
            None => {
                return Err("Missing 'data' field".to_owned());
            },
        };
        let op = operation.as_str();
        let result: String = if str_eq(op, "format") {
            let data = match json_parse(data_str.as_str()) {
                Ok(v) => v,
                Err(e) => {
                    return Err(
                        String::from_str("Invalid JSON data: ").concat(
                            json_error_message(&e).as_str(),
                        ),
                    );
                },
            };
            match json_to_string_pretty(&data) {
                Ok(text) => text,
                Err(e) => {
                    return Err(
                        String::from_str("Failed to format JSON: ").concat(
                            json_error_message(&e).as_str(),
                        ),
                    );
                },
            }
        } else if str_eq(op, "minify") {
            let data = match json_parse(data_str.as_str()) {
                Ok(v) => v,
                Err(e) => {
                    return Err(
                        String::from_str("Invalid JSON data: ").concat(
                            json_error_message(&e).as_str(),
                        ),
                    );
                },
            };
            match json_to_string(&data) {
                Ok(text) => text,
                Err(e) => {
                    return Err(
                        String::from_str("Failed to minify JSON: ").concat(
                            json_error_message(&e).as_str(),
                        ),
                    );
                },
            }
        } else if str_eq(op, "validate") {
            match json_parse(data_str.as_str()) {
                Ok(_) => "Valid JSON".to_owned(),
                Err(e) => String::from_str("Invalid JSON: ").concat(
                    json_error_message(&e).as_str(),
                ),
            }
        } else if str_eq(op, "query") {
            let path = match get_string_field(&parsed, "path") {
                Some(s) => s,
                None => {
                    return Err("Missing 'path' field for query operation".to_owned());
                },
            };
            let data = match json_parse(data_str.as_str()) {
                Ok(v) => v,
                Err(e) => {
                    return Err(
                        String::from_str("Invalid JSON data: ").concat(
                            json_error_message(&e).as_str(),
                        ),
                    );
                },
            };
            match Self::query_json_path(&data, path.as_str()) {
                Some(value) => match json_to_string(value) {
                    Ok(text) => text,
                    Err(e) => {
                        return Err(
                            String::from_str("Failed to serialize query result: ").concat(
                                json_error_message(&e).as_str(),
                            ),
                        );
                    },
                },
                None => "null".to_owned(),
            }
        } else if str_eq(op, "keys") {
            let data = match json_parse(data_str.as_str()) {
                Ok(v) => v,
                Err(e) => {
                    return Err(
                        String::from_str("Invalid JSON data: ").concat(
                            json_error_message(&e).as_str(),
                        ),
                    );
                },
            };
            let keys = Self::get_json_keys(&data);
            json_string_array(&keys)
        } else if str_eq(op, "type") {
            let data = match json_parse(data_str.as_str()) {
                Ok(v) => v,
                Err(e) => {
                    return Err(
                        String::from_str("Invalid JSON data: ").concat(
                            json_error_message(&e).as_str(),
                        ),
                    );
                },
            };
            Self::get_json_type(&data).to_owned()
        } else {
            return Err(
                String::from_str("Unknown operation: ").concat(op).concat(
                    ". Supported operations: format, minify, validate, query, keys, type",
                ),
            );
        };
        Ok(build_response(op, data_str.as_str(), result.as_str()))
    }
}

} // verus!
