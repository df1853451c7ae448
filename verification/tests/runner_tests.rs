use code_runner::config::RunnerConfig;
use code_runner::error::RunError;
use code_runner::mapping::{Entry, Mapping};
use code_runner::paths::directory;
use code_runner::project::ProjectType;
use code_runner::resolver::{resolve, select_template};
use code_runner::runner::{
    conclude, invocation_for, launch_failure, slash_reply, slash_request, CodeRunner, Invocation,
    SlashRequest,
};

fn mapping(items: &[(&str, &str)]) -> Mapping {
    Mapping::from_entries(
        items
            .iter()
            .map(|(k, v)| Entry { key: k.to_string(), value: v.to_string() })
            .collect(),
    )
}

fn python_config() -> RunnerConfig {
    RunnerConfig::new(mapping(&[(".py", "python {path}")]), Mapping::new(), Mapping::new())
}

fn full_config() -> RunnerConfig {
    RunnerConfig::new(
        mapping(&[(".py", "files {path}")]),
        mapping(&[("py", "languages {path}"), ("rb", "ruby {path} in {dir}")]),
        mapping(&[("node", "npm start"), ("rust", "cargo run")]),
    )
}

#[test]
fn files_tier_wins_over_the_others() {
    let c = full_config();
    assert_eq!(
        resolve(&c, "/tmp/x.py", Some(ProjectType::Node)),
        Some("files /tmp/x.py".to_string())
    );
    assert_eq!(resolve(&c, "/tmp/x.py", None), Some("files /tmp/x.py".to_string()));
}

#[test]
fn languages_tier_wins_over_projects() {
    let c = full_config();
    assert_eq!(
        resolve(&c, "/srv/app/x.rb", Some(ProjectType::Node)),
        Some("ruby /srv/app/x.rb in /srv/app".to_string())
    );
}

#[test]
fn projects_tier_comes_last() {
    let c = full_config();
    assert_eq!(
        resolve(&c, "/srv/app/x.txt", Some(ProjectType::Rust)),
        Some("cargo run".to_string())
    );
    assert_eq!(
        resolve(&c, "/srv/app/Makefile", Some(ProjectType::Node)),
        Some("npm start".to_string())
    );
}

#[test]
fn no_tier_no_command() {
    let c = full_config();
    assert_eq!(resolve(&c, "/srv/app/x.txt", None), None);
    assert_eq!(resolve(&c, "/srv/app/x.txt", Some(ProjectType::Python)), None);
    assert_eq!(resolve(&c, "/srv/app/Makefile", None), None);
    assert_eq!(resolve(&c, "/srv/app/x.txt", None), None);
}

#[test]
fn extension_is_lower_cased_before_lookup() {
    let c = full_config();
    assert_eq!(resolve(&c, "/tmp/X.PY", None), Some("files /tmp/X.PY".to_string()));
    assert_eq!(resolve(&c, "/tmp/x.Rb", None), Some("ruby /tmp/x.Rb in /tmp".to_string()));
}

#[test]
fn only_the_last_dot_segment_counts() {
    let c = RunnerConfig::new(
        mapping(&[(".gz", "gunzip {path}"), (".tar.gz", "tar xf {path}")]),
        Mapping::new(),
        Mapping::new(),
    );
    assert_eq!(resolve(&c, "/tmp/a.tar.gz", None), Some("gunzip /tmp/a.tar.gz".to_string()));
}

#[test]
fn select_template_by_given_extension() {
    let c = full_config();
    let py = Some("py".to_string());
    let rb = Some("rb".to_string());
    let txt = Some("txt".to_string());
    assert_eq!(select_template(&c, &py, None), Some("files {path}".to_string()));
    assert_eq!(select_template(&c, &rb, Some(ProjectType::Node)), Some("ruby {path} in {dir}".to_string()));
    assert_eq!(select_template(&c, &txt, Some(ProjectType::Node)), Some("npm start".to_string()));
    assert_eq!(select_template(&c, &None, Some(ProjectType::Rust)), Some("cargo run".to_string()));
    assert_eq!(select_template(&c, &txt, Some(ProjectType::Python)), None);
    assert_eq!(select_template(&c, &None, None), None);
}

#[test]
fn directory_of_a_path() {
    assert_eq!(directory("/tmp/x.py"), "/tmp");
    assert_eq!(directory("a/b/c.rs"), "a/b");
    assert_eq!(directory("/"), ".");
    assert_eq!(directory(""), ".");
    assert_eq!(directory("x.py"), ".");
    assert_eq!(directory("dir/x.py"), "dir");
    assert_eq!(directory("/x.py"), "/");
}

#[test]
fn command_for_uses_files_and_languages() {
    let r = CodeRunner::new(full_config());
    assert_eq!(r.command_for("/tmp/x.py"), Some("files /tmp/x.py".to_string()));
    assert_eq!(r.command_for("/tmp/x.rb"), Some("ruby /tmp/x.rb in /tmp".to_string()));
    assert_eq!(r.command_for("/tmp/x.txt"), None);
    assert_eq!(r.command_for("/tmp/noext"), None);
    assert_eq!(r.resolve("/tmp/x.txt", Some(ProjectType::Node)), Some("npm start".to_string()));
    assert_eq!(r.config().files.len(), 1);
}

#[test]
fn python_script_that_succeeds() {
    let r = CodeRunner::new(python_config());
    let plan = r.plan("/tmp/x.py", None);
    assert_eq!(
        plan,
        Ok(Invocation {
            program: "python".to_string(),
            args: vec!["/tmp/x.py".to_string()],
            workdir: "/tmp".to_string(),
        })
    );
    let outcome = conclude(true, b"hello\n", b"");
    assert_eq!(outcome, Ok("hello\n".to_string()));
    assert_eq!(slash_reply(&outcome), "hello\n");
}

#[test]
fn python_script_that_fails() {
    let outcome = conclude(false, b"partial", b"boom");
    assert_eq!(outcome, Err(RunError::NonZeroExit("boom".to_string())));
    assert_eq!(outcome.as_ref().unwrap_err().message(), "boom");
    assert_eq!(slash_reply(&outcome), "Error: boom");
}

#[test]
fn unknown_extension_with_empty_configuration() {
    let r = CodeRunner::new(RunnerConfig::empty());
    assert_eq!(r.command_for("/tmp/x.unknownext"), None);
    let plan = r.plan("/tmp/x.unknownext", None);
    assert_eq!(plan, Err(RunError::ResolutionMiss));
    assert_eq!(RunError::ResolutionMiss.message(), "No matching run command found.");
}

#[test]
fn program_that_cannot_be_started() {
    let c = RunnerConfig::new(mapping(&[(".x", "launcher")]), Mapping::new(), Mapping::new());
    let plan = CodeRunner::new(c).plan("/tmp/a.x", None);
    assert_eq!(
        plan,
        Ok(Invocation { program: "launcher".to_string(), args: vec![], workdir: "/tmp".to_string() })
    );
    let e = launch_failure("No such file or directory (os error 2)".to_string());
    assert_eq!(e, RunError::Launch("No such file or directory (os error 2)".to_string()));
    assert_ne!(e, RunError::NonZeroExit("No such file or directory (os error 2)".to_string()));
    assert!(e.message().contains("No such file or directory"));
}

#[test]
fn empty_template_has_no_program() {
    let c = RunnerConfig::new(mapping(&[(".x", "  ")]), Mapping::new(), Mapping::new());
    assert_eq!(CodeRunner::new(c).plan("/tmp/a.x", None), Err(RunError::Tokenize));
    assert_eq!(RunError::Tokenize.message(), "Empty command string");
    assert_eq!(invocation_for("", "/tmp".to_string()), Err(RunError::Tokenize));
}

#[test]
fn invocation_keeps_quoted_arguments_whole() {
    assert_eq!(
        invocation_for("sh -c \"echo hi\" {x}", ".".to_string()),
        Ok(Invocation {
            program: "sh".to_string(),
            args: vec!["-c".to_string(), "echo hi".to_string(), "{x}".to_string()],
            workdir: ".".to_string(),
        })
    );
}

#[test]
fn invalid_bytes_are_replaced() {
    assert_eq!(conclude(true, &[b'a', 0xff, b'b'], b""), Ok("a\u{fffd}b".to_string()));
    assert_eq!(
        conclude(false, b"", &[0xc3, 0xa9, 0x80]),
        Err(RunError::NonZeroExit("é\u{fffd}".to_string()))
    );
}

#[test]
fn slash_command_requests() {
    let args = vec!["/tmp/x.py".to_string(), "ignored".to_string()];
    assert_eq!(
        slash_request("code-runner.run", &args),
        SlashRequest::Run("/tmp/x.py".to_string())
    );
    assert_eq!(
        slash_request("code-runner.run", &vec![]),
        SlashRequest::Reply("No file path provided".to_string())
    );
    assert_eq!(
        slash_request("other", &args),
        SlashRequest::Reply("Unknown command: other".to_string())
    );
}

#[test]
fn slash_reply_for_a_miss() {
    assert_eq!(
        slash_reply(&Err(RunError::ResolutionMiss)),
        "Error: No matching run command found."
    );
    assert_eq!(
        slash_reply(&Err(RunError::Launch("denied".to_string()))),
        "Error: denied"
    );
}

#[test]
fn project_is_asked_only_on_a_miss() {
    let r = CodeRunner::new(full_config());
    assert!(!r.needs_project("/tmp/x.py"));
    assert!(!r.needs_project("/tmp/x.rb"));
    assert!(r.needs_project("/tmp/x.txt"));
    assert!(r.needs_project("/tmp/Makefile"));
}

#[test]
fn hidden_file_has_no_extension_to_match() {
    let c = RunnerConfig::new(mapping(&[(".py", "python {path}")]), mapping(&[("py", "py")]), Mapping::new());
    assert_eq!(resolve(&c, "/tmp/.py", None), None);
    assert_eq!(resolve(&c, "/tmp/py", None), None);
}

#[test]
fn bare_file_name_runs_in_the_current_directory() {
    let c = RunnerConfig::new(mapping(&[(".py", "ls {dir}")]), Mapping::new(), Mapping::new());
    let r = CodeRunner::new(c);
    assert_eq!(r.command_for("x.py"), Some("ls .".to_string()));
    let r = CodeRunner::new(python_config());
    assert_eq!(
        r.plan("x.py", None),
        Ok(Invocation {
            program: "python".to_string(),
            args: vec!["x.py".to_string()],
            workdir: ".".to_string(),
        })
    );
}
