use dyn_plug::api::{ApiResponse, to_api_infos};
use dyn_plug::manager::PluginStatus;
use dyn_plug::strutil::{
    contains_str, parse_usize, reverse_str, str_ends_with, str_eq, truncate_string,
};

#[test]
fn test_truncate_string() {
    assert_eq!(truncate_string("short", 10), "short");
    assert_eq!(truncate_string("this is a very long string", 10), "this is...");
    assert_eq!(truncate_string("exactly10!", 10), "exactly10!");
    assert_eq!(truncate_string("", 5), "");
}

#[test]
fn truncate_string_tiny_limits() {
    assert_eq!(truncate_string("abcdef", 3), "...");
    assert_eq!(truncate_string("abcdef", 2), "...");
    assert_eq!(truncate_string("abcdef", 0), "...");
}

#[test]
fn str_eq_cases() {
    assert!(str_eq("", ""));
    assert!(str_eq("abc", "abc"));
    assert!(!str_eq("abc", "abd"));
    assert!(!str_eq("abc", "abcd"));
}

#[test]
fn contains_str_cases() {
    assert!(contains_str("resource temporarily unavailable", "temporar"));
    assert!(contains_str("abc", ""));
    assert!(contains_str("abc", "abc"));
    assert!(!contains_str("abc", "abcd"));
    assert!(!contains_str("", "a"));
}

#[test]
fn str_ends_with_cases() {
    assert!(str_ends_with("libplugin.so", ".so"));
    assert!(str_ends_with("x", ""));
    assert!(!str_ends_with("plugin.so.txt", ".so"));
    assert!(!str_ends_with("so", ".so"));
}

#[test]
fn reverse_str_cases() {
    assert_eq!(reverse_str(""), "");
    assert_eq!(reverse_str("ab c"), "c ba");
}

#[test]
fn parse_usize_cases() {
    assert_eq!(parse_usize("0"), Some(0));
    assert_eq!(parse_usize("42"), Some(42));
    assert_eq!(parse_usize("007"), Some(7));
    assert_eq!(parse_usize(""), None);
    assert_eq!(parse_usize("4x"), None);
    assert_eq!(parse_usize("-3"), None);
    assert_eq!(parse_usize("99999999999999999999999999"), None);
}

#[test]
fn api_response_shapes() {
    let ok = ApiResponse::success(7u64);
    assert!(ok.success);
    assert_eq!(ok.data, Some(7));
    assert!(ok.error.is_none());

    let failed = ApiResponse::<u64>::error("boom".to_string());
    assert!(!failed.success);
    assert!(failed.data.is_none());
    assert_eq!(failed.error, Some("boom".to_string()));
}

#[test]
fn api_infos_merge_flags() {
    let statuses = vec![
        PluginStatus {
            name: "a".to_string(),
            version: "1".to_string(),
            description: "d".to_string(),
            enabled: true,
            loaded: true,
            path: "p".to_string(),
            config_enabled: false,
        },
        PluginStatus {
            name: "b".to_string(),
            version: "1".to_string(),
            description: "d".to_string(),
            enabled: true,
            loaded: true,
            path: "p".to_string(),
            config_enabled: true,
        },
    ];
    let infos = to_api_infos(statuses);
    assert_eq!(infos.len(), 2);
    assert_eq!(infos[0].name, "a");
    assert!(!infos[0].enabled);
    assert!(infos[0].loaded);
    assert!(infos[1].enabled);
}
