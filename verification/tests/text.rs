use mcp_semantic_router::config::config_text;
use mcp_semantic_router::text::{decimal, same, split_once};

fn parts(text: &str, separator: &str) -> Option<(String, String)> {
    split_once(text, separator)
}

fn pair(before: &str, after: &str) -> Option<(String, String)> {
    Some((before.to_string(), after.to_string()))
}

#[test]
fn split_takes_the_first_separator() {
    assert_eq!(parts("git___commit", "___"), pair("git", "commit"));
    assert_eq!(parts("git___commit___now", "___"), pair("git", "commit___now"));
    assert_eq!(parts("a____b", "___"), pair("a", "_b"));
    assert_eq!(parts("___", "___"), pair("", ""));
    assert_eq!(parts("___tool", "___"), pair("", "tool"));
    assert_eq!(parts("server___", "___"), pair("server", ""));
}

#[test]
fn split_without_separator_gives_nothing() {
    assert_eq!(parts("git__commit", "___"), None);
    assert_eq!(parts("", "___"), None);
    assert_eq!(parts("__", "___"), None);
}

#[test]
fn split_counts_characters_and_not_bytes() {
    assert_eq!(parts("größe___übung", "___"), pair("größe", "übung"));
    assert_eq!(parts("日本___語", "___"), pair("日本", "語"));
}

#[test]
fn split_at_the_empty_separator() {
    assert_eq!(parts("ab", ""), pair("", "ab"));
    assert_eq!(parts("", ""), pair("", ""));
}

#[test]
fn split_agrees_with_the_standard_library() {
    let texts = ["", "_", "___", "a___b", "a_b__c___d____e", "____", "x____", "é___", "_a___"];
    for text in texts {
        for separator in ["", "_", "___", "a", "é_"] {
            let expected = text
                .split_once(separator)
                .map(|(before, after)| (before.to_string(), after.to_string()));
            assert_eq!(parts(text, separator), expected, "{text} at {separator}");
        }
    }
}

#[test]
fn split_parts_rejoin() {
    let text = "one___two___three";
    let (before, after) = parts(text, "___").unwrap();
    assert_eq!(format!("{before}___{after}"), text);
    assert!(!before.contains("___"));
}

#[test]
fn decimal_writes_numbers() {
    for number in [0usize, 1, 2, 3, 4, 5, 6, 7, 8, 9, 10, 11, 99, 100, 1005, 4096, usize::MAX] {
        assert_eq!(decimal(number), number.to_string());
    }
}

#[test]
fn same_compares_strings() {
    assert!(same("", ""));
    assert!(same("router-init", "router-init"));
    assert!(!same("router-init", "router-list"));
    assert!(!same("router", "router-init"));
}

#[test]
fn missing_configuration_has_no_servers() {
    assert_eq!(config_text(None), "{\"servers\":{}}");
    assert_eq!(config_text(Some("{}".to_string())), "{}");
    assert_eq!(config_text(Some(String::new())), "");
}
