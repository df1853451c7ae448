use code_runner::config::RunnerConfig;
use code_runner::mapping::{Entry, Mapping};

fn entry(key: &str, value: &str) -> Entry {
    Entry { key: key.to_string(), value: value.to_string() }
}

#[test]
fn new_mapping_is_empty() {
    let m = Mapping::new();
    assert_eq!(m.len(), 0);
    assert_eq!(m.get(".py"), None);
    assert!(!m.contains_key(".py"));
}

#[test]
fn insert_then_get() {
    let mut m = Mapping::new();
    assert_eq!(m.insert(".py".to_string(), "python {path}".to_string()), None);
    assert_eq!(m.get(".py"), Some("python {path}".to_string()));
    assert!(m.contains_key(".py"));
    assert_eq!(m.len(), 1);
}

#[test]
fn insert_replaces_and_returns_the_old_value() {
    let mut m = Mapping::new();
    m.insert(".py".to_string(), "python {path}".to_string());
    m.insert(".js".to_string(), "node {path}".to_string());
    let prev = m.insert(".py".to_string(), "python3 {path}".to_string());
    assert_eq!(prev, Some("python {path}".to_string()));
    assert_eq!(m.get(".py"), Some("python3 {path}".to_string()));
    assert_eq!(m.get(".js"), Some("node {path}".to_string()));
    assert_eq!(m.len(), 2);
}

#[test]
fn keys_are_case_sensitive() {
    let mut m = Mapping::new();
    m.insert("Rust".to_string(), "cargo run".to_string());
    assert_eq!(m.get("rust"), None);
    assert_eq!(m.get("Rust"), Some("cargo run".to_string()));
}

#[test]
fn from_entries_keeps_the_later_of_two() {
    let m = Mapping::from_entries(vec![
        entry("a", "1"),
        entry("b", "2"),
        entry("a", "3"),
    ]);
    assert_eq!(m.len(), 2);
    assert_eq!(m.get("a"), Some("3".to_string()));
    assert_eq!(m.get("b"), Some("2".to_string()));
    assert_eq!(m.get("c"), None);
}

#[test]
fn empty_configuration_holds_nothing() {
    let c = RunnerConfig::empty();
    assert_eq!(c.files.len(), 0);
    assert_eq!(c.languages.len(), 0);
    assert_eq!(c.projects.len(), 0);
}

#[test]
fn configuration_keeps_its_mappings() {
    let files = Mapping::from_entries(vec![entry(".py", "python {path}")]);
    let languages = Mapping::from_entries(vec![entry("py", "python3 {path}")]);
    let projects = Mapping::from_entries(vec![entry("node", "npm start")]);
    let c = RunnerConfig::new(files, languages, projects);
    assert_eq!(c.files.get(".py"), Some("python {path}".to_string()));
    assert_eq!(c.languages.get("py"), Some("python3 {path}".to_string()));
    assert_eq!(c.projects.get("node"), Some("npm start".to_string()));
}
