use code_runner::template::substitute;

#[test]
fn path_placeholder_is_replaced() {
    assert_eq!(substitute("python {path}", "/tmp/x.py", "/tmp"), "python /tmp/x.py");
}

#[test]
fn dir_placeholder_is_replaced() {
    assert_eq!(substitute("cd {dir} && make", "/tmp/x.c", "/tmp"), "cd /tmp && make");
}

#[test]
fn every_occurrence_is_replaced() {
    assert_eq!(
        substitute("{path}{path} {dir}/{dir} {path}", "p", "d"),
        "pp d/d p"
    );
}

#[test]
fn template_without_placeholder_is_unchanged() {
    assert_eq!(substitute("cargo run", "/a/b.rs", "/a"), "cargo run");
    assert_eq!(substitute("", "/a/b.rs", "/a"), "");
    assert_eq!(substitute("{pat} {di} {path {dir", "x", "y"), "{pat} {di} {path {dir");
}

#[test]
fn nothing_is_escaped() {
    assert_eq!(
        substitute("run \"{path}\"", "/tmp/my file.py", "/tmp"),
        "run \"/tmp/my file.py\""
    );
}

#[test]
fn substituting_twice_is_substituting_once() {
    let once = substitute("python {path} --cwd {dir}", "/tmp/x.py", "/tmp");
    let twice = substitute(&once, "/tmp/x.py", "/tmp");
    assert_eq!(once, "python /tmp/x.py --cwd /tmp");
    assert_eq!(twice, once);
}

#[test]
fn path_is_filled_in_before_dir() {
    assert_eq!(substitute("{path}", "a{dir}b", "D"), "aDb");
    assert_eq!(substitute("{dir}", "P", "a{path}b"), "a{path}b");
}

#[test]
fn overlapping_candidates_are_read_from_the_left() {
    assert_eq!(substitute("{{path}}", "x", "y"), "{x}");
    assert_eq!(substitute("{path{path}", "x", "y"), "{pathx");
}

#[test]
fn non_ascii_text_is_substituted() {
    assert_eq!(substitute("lancer «{path}»", "/tmp/é.py", "/tmp"), "lancer «/tmp/é.py»");
}

#[test]
fn result_without_braces_is_settled() {
    for (template, path, dir) in [
        ("{path}", "x.py", "."),
        ("run {dir}/{path} {path}{dir}", "/a/b c.py", "/a"),
        ("{dir}{dir}", "}", "}}"),
        ("plain", "p", "d"),
    ] {
        let once = substitute(template, path, dir);
        assert!(!once.contains('{'), "{}", once);
        assert_eq!(substitute(&once, path, dir), once);
    }
}

#[test]
fn path_that_holds_a_placeholder_is_not_settled() {
    let once = substitute("{path}", "a{path}", ".");
    assert_eq!(once, "a{path}");
    assert_eq!(substitute(&once, "a{path}", "."), "aa{path}");
}
