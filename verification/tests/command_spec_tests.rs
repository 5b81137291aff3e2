use gaia::command_spec::{shell_quote, CommandSpec};

#[test]
fn shell_quote_leaves_plain_values_alone() {
    assert_eq!(shell_quote("docker"), "docker");
    assert_eq!(shell_quote("a-b_c./=:9"), "a-b_c./=:9");
    assert_eq!(shell_quote(""), "''");
    assert_eq!(shell_quote("two words"), "'two words'");
    assert_eq!(shell_quote("it's"), "'it'\\''s'");
}

#[test]
fn shell_string_joins_quoted_pieces() {
    let spec = CommandSpec::new("docker")
        .arg("run")
        .args(vec!["--name".to_owned(), "my box".to_owned()])
        .env("A", "1")
        .env("A", "2")
        .working_dir("/tmp");
    assert_eq!(spec.to_shell_string(), "docker run --name 'my box'");
    assert_eq!(spec.env, vec![("A".to_owned(), "2".to_owned())]);
    assert_eq!(spec.working_dir.as_deref(), Some("/tmp"));
}
