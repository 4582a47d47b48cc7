use git_ombl::ChangeType;
use git_ombl::LineEntry;
use git_ombl::LineHistory;
use git_ombl::YamlFormatter;

fn entry() -> LineEntry {
    LineEntry {
        commit_hash: "abc123".to_string(),
        author: "Test Author".to_string(),
        timestamp: 1672531200, // 2023-01-01T00:00:00Z
        message: "Test commit".to_string(),
        content: "test content".to_string(),
        change_type: ChangeType::Created,
    }
}

#[test]
fn test_yaml_formatter_empty_history() {
    let formatter = YamlFormatter::new();
    let history = LineHistory::new("test.rs".to_string(), 42);

    let output = formatter.format(&history);

    // Should contain basic YAML structure
    assert!(output.contains("file_path: test.rs"));
    assert!(output.contains("line_number: 42"));
    assert!(output.contains("entries: []"));
}

#[test]
fn test_yaml_formatter_with_entries() {
    let formatter = YamlFormatter::new();
    let mut history = LineHistory::new("test.rs".to_string(), 42);

    history.add_entry(entry());

    let output = formatter.format(&history);

    // Should contain YAML structure with entry data
    assert!(output.contains("file_path: test.rs"));
    assert!(output.contains("line_number: 42"));
    assert!(output.contains("commit_hash: abc123"));
    assert!(output.contains("author: Test Author"));
    assert!(output.contains("message: Test commit"));
    assert!(output.contains("change_type: Created"));
}

#[test]
fn test_yaml_formatter_valid_yaml() {
    let formatter = YamlFormatter::new();
    let mut history = LineHistory::new("test.rs".to_string(), 42);

    history.add_entry(entry());

    let output = formatter.format(&history);

    // Should be valid YAML that can be parsed back
    let parsed: serde_yaml::Value = serde_yaml::from_str(&output).unwrap();
    assert!(parsed.get("file_path").is_some());
    assert!(parsed.get("line_number").is_some());
    assert!(parsed.get("entries").is_some());
}

#[test]
fn test_yaml_formatter_quoting() {
    let formatter = YamlFormatter::new();
    let mut history = LineHistory::new("test.rs".to_string(), 3);

    history.add_entry(LineEntry {
        commit_hash: "1234abcd".to_string(), // starts with a digit: quoted
        author: "Someone: Else".to_string(), // holds a colon: quoted
        timestamp: 1672531200,
        message: "true".to_string(), // reserved word: quoted
        content: "".to_string(),     // empty: quoted
        change_type: ChangeType::Modified,
    });

    let output = formatter.format(&history);
    let parsed: serde_yaml::Value = serde_yaml::from_str(&output).unwrap();
    let first = &parsed["entries"][0];
    assert_eq!(first["commit_hash"], "1234abcd");
    assert_eq!(first["author"], "Someone: Else");
    assert_eq!(first["message"], "true");
    assert_eq!(first["content"], "");
    assert_eq!(first["timestamp"], "2023-01-01T00:00:00Z");
}
