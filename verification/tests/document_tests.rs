use code_runner::document::{config_from_table, parse_config, read_section, ConfigError};

fn text(s: &str) -> Option<String> {
    Some(s.to_string())
}

#[test]
fn three_sections_are_read() {
    let c = parse_config(
        "[files]\n\".py\" = \"python {path}\"\n\".js\" = \"node {path}\"\n\n\
         [languages]\nruby = \"ruby {path}\"\n\n\
         [projects]\nrust = \"cargo run\"\n",
    )
    .unwrap();
    assert_eq!(c.files.len(), 2);
    assert_eq!(c.files.get(".py"), text("python {path}"));
    assert_eq!(c.files.get(".js"), text("node {path}"));
    assert_eq!(c.languages.len(), 1);
    assert_eq!(c.languages.get("ruby"), text("ruby {path}"));
    assert_eq!(c.projects.len(), 1);
    assert_eq!(c.projects.get("rust"), text("cargo run"));
}

#[test]
fn absent_section_is_empty() {
    let c = parse_config("[languages]\npy = \"python {path}\"\n").unwrap();
    assert_eq!(c.files.len(), 0);
    assert_eq!(c.projects.len(), 0);
    assert_eq!(c.languages.get("py"), text("python {path}"));
    let empty = parse_config("").unwrap();
    assert_eq!(empty.files.len(), 0);
    assert_eq!(empty.languages.len(), 0);
    assert_eq!(empty.projects.len(), 0);
}

#[test]
fn other_sections_are_ignored() {
    let c = parse_config("title = 3\n[files]\n\".c\" = \"cc {path}\"\n[extra]\nx = 1\n").unwrap();
    assert_eq!(c.files.get(".c"), text("cc {path}"));
}

#[test]
fn malformed_text_is_a_syntax_error() {
    match parse_config("[files\n\".py\" = ") {
        Err(ConfigError::Syntax(message)) => assert!(!message.is_empty()),
        other => panic!("unexpected: {:?}", other.map(|_| ())),
    }
}

#[test]
fn duplicate_key_is_a_syntax_error() {
    let r = parse_config("[files]\na = \"x\"\na = \"y\"\n");
    assert!(matches!(r, Err(ConfigError::Syntax(_))));
}

#[test]
fn section_that_is_no_table() {
    let r = parse_config("languages = \"python\"\n");
    assert_eq!(r.map(|_| ()), Err(ConfigError::NotATable("languages".to_string())));
}

#[test]
fn value_that_is_no_string() {
    let r = parse_config("[files]\n\".py\" = \"python {path}\"\n\".js\" = 3\n");
    assert_eq!(
        r.map(|_| ()),
        Err(ConfigError::NotAString("files".to_string(), ".js".to_string()))
    );
}

#[test]
fn first_unsound_section_is_reported() {
    let r = parse_config("projects = 1\n[languages]\npy = true\n");
    assert_eq!(
        r.map(|_| ()),
        Err(ConfigError::NotAString("languages".to_string(), "py".to_string()))
    );
}

#[test]
fn sections_of_a_parsed_table() {
    let doc = "[files]\n\".py\" = \"python {path}\"\n[projects]\nnode = [1]\n"
        .parse::<toml::Table>()
        .unwrap();
    let files = read_section(&doc, "files").unwrap();
    assert_eq!(files.get(".py"), text("python {path}"));
    assert_eq!(read_section(&doc, "languages").unwrap().len(), 0);
    assert_eq!(
        read_section(&doc, "projects").map(|_| ()),
        Err(ConfigError::NotAString("projects".to_string(), "node".to_string()))
    );
    assert_eq!(
        config_from_table(&doc).map(|_| ()),
        Err(ConfigError::NotAString("projects".to_string(), "node".to_string()))
    );
}
