use refstore::config::{config_value, set_config_value};
use refstore::model::{GlobalConfig, McpScope};
use refstore::names::validate_name;
use refstore::text::{decimal_string, join_path, parse_u32};
use refstore::textfile::{append_section, gitignore_additions, install_plan, section_body, InstallPlan};
use refstore::RefstoreError;

fn pats(p: &[&str]) -> Vec<String> {
    p.iter().map(|s| s.to_string()).collect()
}

#[test]
fn gitignore_created_from_nothing() {
    assert_eq!(gitignore_additions("", &pats(&[".references/"])), Some(".references/\n".to_string()));
}

#[test]
fn gitignore_appends_after_missing_newline() {
    assert_eq!(
        gitignore_additions("target", &pats(&["config.toml"])),
        Some("target\nconfig.toml\n".to_string())
    );
    assert_eq!(
        gitignore_additions("target\n", &pats(&["config.toml", "a"])),
        Some("target\nconfig.toml\na\n".to_string())
    );
}

#[test]
fn gitignore_is_idempotent() {
    let first = gitignore_additions("node_modules\n", &pats(&[".references/"])).unwrap();
    assert_eq!(gitignore_additions(&first, &pats(&[".references/"])), None);
    assert_eq!(first.matches(".references/").count(), 1);
}

#[test]
fn gitignore_matches_trimmed_lines() {
    assert_eq!(gitignore_additions("  config.toml  \r\nother\n", &pats(&["config.toml"])), None);
    assert_eq!(gitignore_additions("config.toml.bak\n", &pats(&["config.toml"])), Some("config.toml.bak\nconfig.toml\n".to_string()));
}

#[test]
fn section_added_to_missing_file() {
    let text = append_section(None).unwrap();
    assert!(text.starts_with("<!-- refstore -->\n## refstore"));
    assert!(text.contains(".references/"));
    assert!(text.ends_with("\n\n"));
}

#[test]
fn section_appended_once() {
    let existing = "# My Project\n\nExisting instructions.\n";
    let first = append_section(Some(existing)).unwrap();
    assert!(first.starts_with(existing));
    assert_eq!(&first[existing.len()..existing.len() + 1], "\n");
    assert!(first.contains("<!-- refstore -->"));
    assert_eq!(append_section(Some(&first)), None);
    assert_eq!(first.matches("<!-- refstore -->").count(), 1);
}

#[test]
fn section_separator_without_trailing_newline() {
    let first = append_section(Some("# Agents")).unwrap();
    assert!(first.starts_with("# Agents\n\n<!-- refstore -->"));
    assert!(section_body().starts_with("\n## refstore"));
}

#[test]
fn names_are_validated() {
    assert!(validate_name("my-ref_1.0").is_ok());
    assert!(matches!(validate_name(""), Err(RefstoreError::InvalidName { ref reason, .. }) if reason == "name cannot be empty"));
    assert!(validate_name("invalid name!").is_err());
    assert!(validate_name("a/b").is_err());
    assert!(validate_name("caf\u{e9}").is_err());
}

#[test]
fn numbers_format_and_parse() {
    assert_eq!(decimal_string(0), "0");
    assert_eq!(decimal_string(1234567890), "1234567890");
    assert_eq!(decimal_string(u64::MAX), u64::MAX.to_string());
    assert_eq!(parse_u32("42"), Some(42));
    assert_eq!(parse_u32("+7"), Some(7));
    assert_eq!(parse_u32("4294967295"), Some(u32::MAX));
    assert_eq!(parse_u32("4294967296"), None);
    assert_eq!(parse_u32(""), None);
    assert_eq!(parse_u32("+"), None);
    assert_eq!(parse_u32("-1"), None);
    assert_eq!(parse_u32("1x"), None);
    for s in ["0", "007", "+0", "99999999999", " 1", "12"] {
        assert_eq!(parse_u32(s), s.parse::<u32>().ok());
    }
}

#[test]
fn paths_join_like_pathbuf() {
    assert_eq!(join_path("/a", "b"), "/a/b");
    assert_eq!(join_path("/a/", "b"), "/a/b");
    assert_eq!(join_path("", "b"), "b");
    assert_eq!(join_path("/a", "/abs"), "/abs");
}

#[test]
fn config_set_and_get() {
    let mut c = GlobalConfig::default();
    assert_eq!(config_value(&c, "mcp_scope").unwrap(), "read_only");
    set_config_value(&mut c, "mcp_scope", "read_write").unwrap();
    assert_eq!(c.mcp_scope, McpScope::ReadWrite);
    assert_eq!(config_value(&c, "mcp_scope").unwrap(), "read_write");
    set_config_value(&mut c, "git_depth", "0").unwrap();
    assert_eq!(config_value(&c, "git_depth").unwrap(), "0");
    assert_eq!(config_value(&c, "default_branch").unwrap(), "(not set)");
    set_config_value(&mut c, "default_branch", "develop").unwrap();
    assert_eq!(config_value(&c, "default_branch").unwrap(), "develop");
    set_config_value(&mut c, "default_branch", "none").unwrap();
    assert!(c.default_branch.is_none());
}

#[test]
fn config_set_rejects_bad_input() {
    let mut c = GlobalConfig::default();
    assert_eq!(
        set_config_value(&mut c, "nonexistent_key", "value").unwrap_err(),
        RefstoreError::UnknownConfigKey { key: "nonexistent_key".to_string() }
    );
    assert_eq!(
        set_config_value(&mut c, "mcp_scope", "garbage").unwrap_err(),
        RefstoreError::InvalidConfigValue { key: "mcp_scope".to_string(), value: "garbage".to_string() }
    );
    assert!(set_config_value(&mut c, "git_depth", "deep").is_err());
    assert_eq!(c.git_depth, 1);
    assert!(config_value(&c, "nope").is_err());
}

#[test]
fn gitignore_idempotent_for_padded_patterns() {
    let first = gitignore_additions("", &pats(&["  build/ "])).unwrap();
    assert_eq!(first, "  build/ \n");
    assert_eq!(gitignore_additions(&first, &pats(&["  build/ "])), None);
    assert_eq!(gitignore_additions("build/\n", &pats(&[" build/"])), None);
}

#[test]
fn instruction_plans() {
    use_plans();
}

fn use_plans() {
    assert!(matches!(install_plan(&vec![true, true], &vec![false, true]), InstallPlan::Append { ref files } if files == &vec![0]));
    assert!(matches!(install_plan(&vec![true, false], &vec![true, false]), InstallPlan::Present { ref files } if files == &vec![0]));
    assert!(matches!(install_plan(&vec![false, false], &vec![false, false]), InstallPlan::CreateDefault));
}
