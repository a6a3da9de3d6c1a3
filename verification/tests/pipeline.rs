use gramhive::commands::CommandMeta;
use gramhive::errors::ExtractionError;
use gramhive::extractors::{
    optional, ArgumentExtractor, InputExtractor, RegexExtractor, ReplyExtractor, ReplyHeader,
};
use gramhive::filters::filter_command;
use gramhive::router::{error_chain_runs, triggers_error_chain, ChainOutcome, Router};
use gramhive::swarm::{session_router, supervisor_step, SupervisorAction, SupervisorEvent};

fn meta_with(aliases: &[&str]) -> CommandMeta {
    let cmds: Vec<String> = aliases.iter().map(|s| s.to_string()).collect();
    CommandMeta::builder().cmds(cmds).build().expect("alias list is non-empty")
}

#[test]
fn positional_mismatch_on_malformed_token() {
    let meta = meta_with(&["c"]);
    let ci = filter_command(&meta, "/c abc").expect("matches");
    match ArgumentExtractor::new(0).extract_int(&ci) {
        Err(ExtractionError::Mismatched { expected, found }) => {
            assert_eq!(expected, "int");
            assert_eq!(found, "abc");
        }
        other => panic!("expected a mismatch, got {:?}", other.is_ok()),
    }
}

#[test]
fn positional_missing_when_index_out_of_range() {
    let meta = meta_with(&["c"]);
    let ci = filter_command(&meta, "/c one two").expect("matches");
    assert!(matches!(
        ArgumentExtractor::new(2).extract_int(&ci),
        Err(ExtractionError::Missing)
    ));
    assert!(matches!(
        ArgumentExtractor::new(5).extract_text(&ci),
        Err(ExtractionError::Missing)
    ));
    assert_eq!(ArgumentExtractor::new(1).extract_text(&ci).unwrap(), "two");
}

#[test]
fn positional_parses_integers() {
    let meta = meta_with(&["c"]);
    let ci = filter_command(&meta, "/c -5 +7 007 9223372036854775807 9223372036854775808")
        .expect("matches");
    assert_eq!(ArgumentExtractor::new(0).extract_int(&ci).unwrap(), -5);
    assert_eq!(ArgumentExtractor::new(1).extract_int(&ci).unwrap(), 7);
    assert_eq!(ArgumentExtractor::new(2).extract_int(&ci).unwrap(), 7);
    assert_eq!(
        ArgumentExtractor::new(3).extract_int(&ci).unwrap(),
        9223372036854775807i64
    );
    assert!(matches!(
        ArgumentExtractor::new(4).extract_int(&ci),
        Err(ExtractionError::Mismatched { .. })
    ));
}

#[test]
fn input_extractor_returns_remainder() {
    let meta = meta_with(&["c"]);
    let with = filter_command(&meta, "/c some text").expect("matches");
    assert_eq!(InputExtractor {}.extract(&with).unwrap(), "some text");
    let without = filter_command(&meta, "/c").expect("matches");
    assert!(matches!(
        InputExtractor {}.extract(&without),
        Err(ExtractionError::Missing)
    ));
}

#[test]
fn reply_extractor_classifies() {
    let ex = ReplyExtractor {};
    assert!(matches!(ex.target(&None), Err(ExtractionError::Missing)));
    assert!(matches!(
        ex.target(&Some(ReplyHeader { reply_to_msg_id: None })),
        Err(ExtractionError::Missing)
    ));
    assert_eq!(
        ex.target(&Some(ReplyHeader { reply_to_msg_id: Some(42) })).unwrap(),
        42
    );
    assert_eq!(ex.resolve::<u32>(Ok(Some(9))).unwrap(), 9);
    assert!(matches!(
        ex.resolve::<u32>(Ok(None)),
        Err(ExtractionError::Missing)
    ));
    match ex.resolve::<u32>(Err("boom".to_string())) {
        Err(ExtractionError::Invocation { cause }) => assert_eq!(cause, "boom"),
        _ => panic!("expected an invocation failure"),
    }
}

#[test]
fn optional_adapts_missing_only() {
    assert_eq!(optional::<i64>(Ok(5)).unwrap(), Some(5));
    assert_eq!(optional::<i64>(Err(ExtractionError::Missing)).unwrap(), None);
    assert!(matches!(
        optional::<i64>(Err(ExtractionError::Other)),
        Err(ExtractionError::Other)
    ));
}

#[test]
fn regex_extractor_scans_raw_text() {
    let digits = RegexExtractor::new("[0-9]+");
    assert_eq!(digits.extract_int("abc 123 x 456").unwrap(), 123);
    assert_eq!(digits.extract_text("abc 123 x 456").unwrap(), "123");
    assert!(matches!(
        digits.extract_int("no numbers here"),
        Err(ExtractionError::Missing)
    ));
    let words = RegexExtractor::new("[a-z]+");
    match words.extract_int("hello 5") {
        Err(ExtractionError::Mismatched { expected, found }) => {
            assert_eq!(expected, "int");
            assert_eq!(found, "hello");
        }
        _ => panic!("expected a mismatch"),
    }
}

#[test]
fn dual_match_isolated_failure() {
    // two independently registered chains match the same message; one
    // handler succeeds, the other fails: the error chain runs exactly
    // once, and the successful chain's outcome is untouched.
    let mut router = Router::new();
    meta_with(&["go"]).register(&mut router);
    meta_with(&["go", "run"]).register(&mut router);
    let plan = router.dispatch_matches("/go now");
    assert_eq!(plan.len(), 2);
    assert!(plan[0].is_some());
    assert!(plan[1].is_some());
    let outcomes = vec![
        ChainOutcome::Completed,
        ChainOutcome::Failed("handler failed".to_string()),
    ];
    assert_eq!(error_chain_runs(&outcomes), 1);
    assert!(!triggers_error_chain(&outcomes[0]));
    assert!(triggers_error_chain(&outcomes[1]));
}

#[test]
fn rejected_chains_do_not_run_error_chain() {
    let outcomes = vec![
        ChainOutcome::Rejected,
        ChainOutcome::Rejected,
        ChainOutcome::Completed,
    ];
    assert_eq!(error_chain_runs(&outcomes), 0);
}

#[test]
fn router_reinitializes_all_commands() {
    let mut router = Router::new();
    meta_with(&["a"]).register(&mut router);
    meta_with(&["b"]).register(&mut router);
    router.reinit_command_regexes("bot");
    assert!(filter_command(&router.commands[0], "/a@bot").is_some());
    assert!(filter_command(&router.commands[1], "/b@bot x").is_some());
}

#[test]
fn session_router_copies_before_reinitializing() {
    let mut shared = Router::new();
    meta_with(&["cmd"]).register(&mut shared);
    let bound = session_router(&shared, Some("alpha"));
    // the bound copy accepts the identity suffix
    assert!(filter_command(&bound.commands[0], "/cmd@alpha").is_some());
    // the shared router was not mutated on the session's behalf
    assert!(filter_command(&shared.commands[0], "/cmd@alpha").is_none());
    assert!(filter_command(&shared.commands[0], "/cmd").is_some());
    // a session without a public handle gets an equivalent copy
    let plain = session_router(&shared, None);
    assert!(filter_command(&plain.commands[0], "/cmd").is_some());
    assert!(filter_command(&plain.commands[0], "/cmd@alpha").is_none());
}

#[test]
fn supervisor_decisions() {
    assert!(matches!(
        supervisor_step(&SupervisorEvent::Shutdown),
        SupervisorAction::Stop
    ));
    assert!(matches!(
        supervisor_step(&SupervisorEvent::UpdateReceived),
        SupervisorAction::DispatchUpdate
    ));
    assert!(matches!(
        supervisor_step(&SupervisorEvent::TransportError),
        SupervisorAction::ContinueAfterError
    ));
}

#[test]
fn with_context_wraps_the_failure() {
    let meta = meta_with(&["c"]);
    let ci = filter_command(&meta, "/c").expect("matches");
    let err = ExtractionError::Missing.with_context("target", ci);
    assert_eq!(err.var_name, "target");
    assert_eq!(err.command_input.cmd, "c");
    assert!(matches!(err.source, ExtractionError::Missing));
    assert_eq!(err.message(), "error extracting `target`: missing argument");
}

#[test]
fn failure_messages() {
    assert_eq!(ExtractionError::Missing.message(), "missing argument");
    let mismatch = ExtractionError::Mismatched {
        expected: "int".to_string(),
        found: "abc".to_string(),
    };
    assert_eq!(
        mismatch.message(),
        "mismatched types (expected \"int\", found \"abc\")"
    );
    let invocation = ExtractionError::Invocation { cause: "timed out".to_string() };
    assert_eq!(invocation.message(), "client invocation error: timed out");
    assert_eq!(ExtractionError::Other.message(), "unknown argument error");
}

#[test]
fn tokens_rejoin_is_idempotent_on_collapsed_text() {
    let meta = meta_with(&["c"]);
    let ci = filter_command(&meta, "/c  a   b c ").expect("matches");
    let joined = ci.args.join(" ");
    assert_eq!(joined, "a b c");
    let again = gramhive::text::split_ws(&joined);
    assert_eq!(again, ci.args);
    assert_eq!(again.join(" "), joined);
}
