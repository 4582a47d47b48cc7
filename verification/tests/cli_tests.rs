use git_ombl::Cli;
use git_ombl::Format;
use git_ombl::SortOrder;

fn args(parts: &[&str]) -> Vec<String> {
    parts.iter().map(|s| s.to_string()).collect()
}

#[test]
fn test_format_enum_parsing() {
    assert_eq!(Format::from_str("colored", true).unwrap(), Format::Colored);
    assert_eq!(Format::from_str("json", true).unwrap(), Format::Json);
    assert_eq!(Format::from_str("table", true).unwrap(), Format::Table);
    assert_eq!(Format::from_str("yaml", true).unwrap(), Format::Yaml);
}

#[test]
fn test_sort_order_enum_parsing() {
    assert_eq!(SortOrder::from_str("asc", true).unwrap(), SortOrder::Asc);
    assert_eq!(SortOrder::from_str("desc", true).unwrap(), SortOrder::Desc);
}

#[test]
fn test_cli_parsing() {
    let cli = Cli::parse_from(&args(&["git-ombl", "test.rs", "42", "--format", "json"])).unwrap();

    assert_eq!(cli.file, "test.rs");
    assert_eq!(cli.line, 42);
    assert!(matches!(cli.format, Format::Json));
}

#[test]
fn test_cli_parsing_with_sort_desc() {
    let cli = Cli::parse_from(&args(&["git-ombl", "test.rs", "42", "--sort", "desc"])).unwrap();

    assert_eq!(cli.file, "test.rs");
    assert_eq!(cli.line, 42);
    assert!(matches!(cli.sort, SortOrder::Desc));
}

#[test]
fn test_cli_parsing_with_sort_asc() {
    let cli = Cli::parse_from(&args(&["git-ombl", "test.rs", "42", "--sort", "asc"])).unwrap();

    assert_eq!(cli.file, "test.rs");
    assert_eq!(cli.line, 42);
    assert!(matches!(cli.sort, SortOrder::Asc));
}

#[test]
fn test_cli_parsing_default_sort() {
    let cli = Cli::parse_from(&args(&["git-ombl", "test.rs", "42"])).unwrap();

    assert_eq!(cli.file, "test.rs");
    assert_eq!(cli.line, 42);
    assert!(matches!(cli.sort, SortOrder::Asc));
}

#[test]
fn test_cli_parsing_with_single_ignore_rev() {
    let cli = Cli::parse_from(&args(&["git-ombl", "test.rs", "42", "--ignore-rev", "abc123def"]))
        .unwrap();

    assert_eq!(cli.file, "test.rs");
    assert_eq!(cli.line, 42);
    assert_eq!(cli.ignore_revs.len(), 1);
    assert_eq!(cli.ignore_revs[0], "abc123def");
}

#[test]
fn test_cli_parsing_with_multiple_ignore_revs() {
    let cli = Cli::parse_from(&args(&[
        "git-ombl",
        "test.rs",
        "42",
        "--ignore-rev",
        "abc123def",
        "--ignore-rev",
        "def456ghi",
    ]))
    .unwrap();

    assert_eq!(cli.file, "test.rs");
    assert_eq!(cli.line, 42);
    assert_eq!(cli.ignore_revs.len(), 2);
    assert_eq!(cli.ignore_revs[0], "abc123def");
    assert_eq!(cli.ignore_revs[1], "def456ghi");
}

#[test]
fn test_cli_parsing_with_no_ignore_revs() {
    let cli = Cli::parse_from(&args(&["git-ombl", "test.rs", "42"])).unwrap();

    assert_eq!(cli.file, "test.rs");
    assert_eq!(cli.line, 42);
    assert!(cli.ignore_revs.is_empty());
}

#[test]
fn test_cli_parsing_with_since_option() {
    let cli = Cli::parse_from(&args(&["git-ombl", "test.rs", "42", "--since", "2023-01-01"]))
        .unwrap();

    assert_eq!(cli.file, "test.rs");
    assert_eq!(cli.line, 42);
    assert_eq!(cli.since, Some("2023-01-01".to_string()));
    assert_eq!(cli.until, None);
}

#[test]
fn test_cli_parsing_with_until_option() {
    let cli = Cli::parse_from(&args(&["git-ombl", "test.rs", "42", "--until", "2023-12-31"]))
        .unwrap();

    assert_eq!(cli.file, "test.rs");
    assert_eq!(cli.line, 42);
    assert_eq!(cli.since, None);
    assert_eq!(cli.until, Some("2023-12-31".to_string()));
}

#[test]
fn test_cli_parsing_with_both_since_and_until() {
    let cli = Cli::parse_from(&args(&[
        "git-ombl",
        "test.rs",
        "42",
        "--since",
        "2023-01-01T00:00:00Z",
        "--until",
        "2023-12-31T23:59:59Z",
    ]))
    .unwrap();

    assert_eq!(cli.file, "test.rs");
    assert_eq!(cli.line, 42);
    assert_eq!(cli.since, Some("2023-01-01T00:00:00Z".to_string()));
    assert_eq!(cli.until, Some("2023-12-31T23:59:59Z".to_string()));
}

#[test]
fn test_cli_parsing_with_since_rfc2822_format() {
    let cli = Cli::parse_from(&args(&[
        "git-ombl",
        "test.rs",
        "42",
        "--since",
        "Mon, 01 Jan 2023 00:00:00 GMT",
    ]))
    .unwrap();

    assert_eq!(cli.file, "test.rs");
    assert_eq!(cli.line, 42);
    assert_eq!(cli.since, Some("Mon, 01 Jan 2023 00:00:00 GMT".to_string()));
}

#[test]
fn test_cli_parsing_with_since_and_ignore_rev_combined() {
    let cli = Cli::parse_from(&args(&[
        "git-ombl",
        "test.rs",
        "42",
        "--since",
        "2023-01-01",
        "--ignore-rev",
        "abc123def",
        "--sort",
        "desc",
    ]))
    .unwrap();

    assert_eq!(cli.file, "test.rs");
    assert_eq!(cli.line, 42);
    assert_eq!(cli.since, Some("2023-01-01".to_string()));
    assert_eq!(cli.ignore_revs.len(), 1);
    assert_eq!(cli.ignore_revs[0], "abc123def");
    assert!(matches!(cli.sort, SortOrder::Desc));
}

#[test]
fn test_cli_parsing_without_date_filters() {
    let cli = Cli::parse_from(&args(&["git-ombl", "test.rs", "42"])).unwrap();

    assert_eq!(cli.file, "test.rs");
    assert_eq!(cli.line, 42);
    assert_eq!(cli.since, None);
    assert_eq!(cli.until, None);
}

#[test]
fn test_cli_parsing_rejects_bad_line_number() {
    assert!(Cli::parse_from(&args(&["git-ombl", "test.rs", "notanumber"])).is_err());
    assert!(Cli::parse_from(&args(&["git-ombl", "test.rs"])).is_err());
    assert!(Cli::parse_from(&args(&["git-ombl", "test.rs", "42", "--bogus"])).is_err());
}

#[test]
fn test_cli_parsing_with_limit() {
    let cli = Cli::parse_from(&args(&["git-ombl", "test.rs", "42", "--limit", "10"])).unwrap();

    assert_eq!(cli.limit, Some(10));
}
