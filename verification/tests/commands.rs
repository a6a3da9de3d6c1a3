use gramhive::commands::{CommandMeta, ExtraFind, ExtraValue};
use gramhive::filters::filter_command;

fn meta_with(aliases: &[&str]) -> CommandMeta {
    let cmds: Vec<String> = aliases.iter().map(|s| s.to_string()).collect();
    CommandMeta::builder().cmds(cmds).build().expect("alias list is non-empty")
}

#[test]
fn scenario_plain_command() {
    let meta = meta_with(&["ping"]);
    let ci = filter_command(&meta, "/ping").expect("matches");
    assert_eq!(ci.prefix, "/");
    assert_eq!(ci.cmd, "ping");
    assert_eq!(ci.input, None);
    assert!(ci.args.is_empty());
}

#[test]
fn scenario_remainder_and_args() {
    let meta = meta_with(&["echo"]);
    let ci = filter_command(&meta, "/echo hello world").expect("matches");
    assert_eq!(ci.prefix, "/");
    assert_eq!(ci.cmd, "echo");
    assert_eq!(ci.input, Some("hello world".to_string()));
    assert_eq!(ci.args, vec!["hello".to_string(), "world".to_string()]);
}

#[test]
fn scenario_identity_suffix() {
    let mut meta = meta_with(&["echo"]);
    meta.reinit_regex("mybot");
    let ci = filter_command(&meta, "/echo@mybot hi").expect("matches with own identity");
    assert_eq!(ci.cmd, "echo");
    assert_eq!(ci.input, Some("hi".to_string()));
    assert!(filter_command(&meta, "/echo@otherbot hi").is_none());
    // without the suffix the command still matches
    assert!(filter_command(&meta, "/echo hi").is_some());
}

#[test]
fn reinitialize_is_repeatable() {
    let mut meta = meta_with(&["echo"]);
    meta.reinit_regex("first");
    meta.reinit_regex("second");
    assert!(filter_command(&meta, "/echo@second x").is_some());
    assert!(filter_command(&meta, "/echo@first x").is_none());
}

#[test]
fn remainder_is_verbatim_after_first_whitespace_run() {
    let meta = meta_with(&["echo"]);
    let ci = filter_command(&meta, "/echo   a  b").expect("matches");
    assert_eq!(ci.input, Some("a  b".to_string()));
    assert_eq!(ci.args, vec!["a".to_string(), "b".to_string()]);
    // trailing whitespace only: the remainder is empty, so absent
    let empty = filter_command(&meta, "/echo   ").expect("matches");
    assert_eq!(empty.input, None);
    assert!(empty.args.is_empty());
}

#[test]
fn no_match_without_prefix_or_alias() {
    let meta = meta_with(&["echo"]);
    assert!(filter_command(&meta, "echo hi").is_none());
    assert!(filter_command(&meta, "/echoes hi").is_none());
    assert!(filter_command(&meta, "/ping").is_none());
}

#[test]
fn several_prefixes_and_aliases() {
    let cmds: Vec<String> = vec!["e".to_string(), "echo".to_string()];
    let prefixes: Vec<String> = vec!["!".to_string(), "/".to_string()];
    let meta = CommandMeta::builder().cmds(cmds).prefixes(prefixes).build().unwrap();
    let ci = filter_command(&meta, "!echo x").expect("matches");
    assert_eq!(ci.prefix, "!");
    assert_eq!(ci.cmd, "echo");
    let short = filter_command(&meta, "/e y").expect("matches");
    assert_eq!(short.cmd, "e");
}

#[test]
fn builder_requires_an_alias() {
    assert!(CommandMeta::builder().build().is_none());
}

#[test]
fn builder_texts_carry_over() {
    let meta = CommandMeta::builder()
        .cmds(vec!["x".to_string()])
        .description("a command")
        .module("core")
        .sig("x <arg>")
        .build()
        .unwrap();
    assert_eq!(meta.description, Some("a command".to_string()));
    assert_eq!(meta.module, Some("core".to_string()));
    assert_eq!(meta.sig, Some("x <arg>".to_string()));
}

#[test]
fn extras_typed_lookup() {
    let meta = CommandMeta::builder()
        .cmds(vec!["x".to_string()])
        .extra("level", ExtraValue::Int(3))
        .extra("name", ExtraValue::Text("alpha".to_string()))
        .build()
        .unwrap();
    match meta.extra_int("level") {
        ExtraFind::Value(v) => assert_eq!(v, 3),
        _ => panic!("expected a value"),
    }
    match meta.extra_text("name") {
        ExtraFind::Value(v) => assert_eq!(v, "alpha"),
        _ => panic!("expected a value"),
    }
    // wrong expected type is told apart from an absent key
    assert!(matches!(meta.extra_text("level"), ExtraFind::WrongType));
    assert!(matches!(meta.extra_flag("level"), ExtraFind::WrongType));
    assert!(matches!(meta.extra_int("missing"), ExtraFind::Absent));
    assert!(meta.extra_entry("missing").is_none());
}

#[test]
fn extras_insert_replaces() {
    let meta = CommandMeta::builder()
        .cmds(vec!["x".to_string()])
        .extra("k", ExtraValue::Int(1))
        .extra("k", ExtraValue::Int(2))
        .build()
        .unwrap();
    match meta.extra_int("k") {
        ExtraFind::Value(v) => assert_eq!(v, 2),
        _ => panic!("expected a value"),
    }
    assert_eq!(meta.extras.len(), 1);
}
