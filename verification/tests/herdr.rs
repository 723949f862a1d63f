use memex::config::UserConfig;
use memex::herdr::{
    command_started, herdr_bin, inside_herdr, open_resume_pane, opened_pane, pane_id_at,
    pane_opened, resume_placement, run_json, CommandFailure, CommandOutcome, ResumeAction,
    ResumeError, ResumePlacement, ResumeRequest,
};
use memex::json;
use std::path::PathBuf;

#[test]
fn placement_parses_config_values() {
    let mut config = UserConfig::default();
    assert_eq!(resume_placement(&config), ResumePlacement::Tab);
    config.herdr_resume = Some("split".to_string());
    assert_eq!(resume_placement(&config), ResumePlacement::Split);
    config.herdr_resume = Some("off".to_string());
    assert_eq!(resume_placement(&config), ResumePlacement::Off);
    config.herdr_resume = Some("bogus".to_string());
    assert_eq!(resume_placement(&config), ResumePlacement::Tab);
}

#[test]
fn pane_id_extraction() {
    let value = json::parse(r#"{"result":{"root_pane":{"pane_id":"w1:p9"}}}"#).unwrap();
    assert_eq!(
        pane_id_at(&value, &["result", "root_pane", "pane_id"]).as_deref(),
        Some("w1:p9")
    );
    assert!(pane_id_at(&value, &["result", "pane", "pane_id"]).is_none());
}

fn request(placement: ResumePlacement) -> ResumeRequest {
    ResumeRequest {
        placement,
        cwd: Some("/work".to_string()),
        label: "session".to_string(),
        command: "resume it".to_string(),
        workspace_id: Some("w1".to_string()),
        pane_id: Some("w1:p1".to_string()),
    }
}

fn exited(success: bool, stdout: &str, stderr: &str) -> CommandOutcome {
    CommandOutcome::Exited {
        success,
        stdout: stdout.as_bytes().to_vec(),
        stderr: stderr.as_bytes().to_vec(),
    }
}

#[test]
fn only_the_value_one_means_inside() {
    assert!(inside_herdr(Some("1")));
    assert!(!inside_herdr(Some("0")));
    assert!(!inside_herdr(Some("11")));
    assert!(!inside_herdr(None));
}

#[test]
fn injected_binary_wins_where_it_is_set() {
    let injected = || Some(PathBuf::from("/opt/herdr"));
    let found = || Some(PathBuf::from("/usr/bin/herdr"));
    assert_eq!(herdr_bin(injected(), found()), injected());
    assert_eq!(herdr_bin(injected(), None), injected());
    assert_eq!(herdr_bin(None, found()), found());
    assert_eq!(herdr_bin(None, None), None);
}

#[test]
fn tab_is_opened_in_the_workspace_and_directory() {
    match open_resume_pane(true, &request(ResumePlacement::Tab)) {
        ResumeAction::OpenPane { arguments } => assert_eq!(
            arguments,
            vec![
                "tab", "create", "--workspace", "w1", "--cwd", "/work", "--label", "session",
                "--focus"
            ]
        ),
        other => panic!("unexpected: {:?}", other),
    }
}

#[test]
fn split_of_a_remote_session_has_no_directory() {
    let mut asked = request(ResumePlacement::Split);
    asked.cwd = None;
    asked.pane_id = None;
    match open_resume_pane(true, &asked) {
        ResumeAction::OpenPane { arguments } => {
            assert_eq!(arguments, vec!["pane", "split", "--direction", "right", "--focus"]);
        }
        other => panic!("unexpected: {:?}", other),
    }
}

#[test]
fn nothing_is_opened_without_a_binary_or_when_off() {
    let missing = open_resume_pane(false, &request(ResumePlacement::Off));
    assert!(matches!(
        missing,
        ResumeAction::Stop { result: Err(ResumeError::BinaryNotFound) }
    ));
    let off = open_resume_pane(true, &request(ResumePlacement::Off));
    assert!(matches!(off, ResumeAction::Stop { result: Err(ResumeError::Disabled) }));
}

#[test]
fn command_is_run_in_the_pane_that_was_opened() {
    let response = exited(true, r#"{"result":{"pane":{"pane_id":"w1:p2"}}}"#, "");
    match pane_opened(&request(ResumePlacement::Split), response) {
        ResumeAction::RunInPane { pane_id, arguments } => {
            assert_eq!(pane_id, "w1:p2");
            assert_eq!(arguments, vec!["pane", "run", "w1:p2", "resume it"]);
        }
        other => panic!("unexpected: {:?}", other),
    }
    let done = command_started("w1:p2".to_string(), exited(true, "", ""));
    assert_eq!(done.unwrap(), "w1:p2");
}

#[test]
fn failures_to_open_are_told_apart() {
    let asked = request(ResumePlacement::Tab);
    match pane_opened(&asked, exited(false, "", "  no such workspace\n")) {
        ResumeAction::Stop {
            result: Err(ResumeError::CreateFailed { failure: CommandFailure::Failed { stderr }, .. }),
        } => assert_eq!(stderr, "no such workspace"),
        other => panic!("unexpected: {:?}", other),
    }
    match pane_opened(&asked, exited(true, "not json", "")) {
        ResumeAction::Stop {
            result: Err(ResumeError::CreateFailed { failure: CommandFailure::Unparseable { error }, .. }),
        } => {
            let cause = serde_json::from_str::<serde_json::Value>("not json").unwrap_err();
            assert_eq!(error.to_string(), cause.to_string());
            assert_eq!((error.line(), error.column()), (cause.line(), cause.column()));
        }
        other => panic!("unexpected: {:?}", other),
    }
    let response = exited(true, r#"{"result":{"pane":{"pane_id":"w1:p2"}}}"#, "");
    assert!(matches!(
        pane_opened(&asked, response),
        ResumeAction::Stop { result: Err(ResumeError::NoPaneId { .. }) }
    ));
    let unstarted = CommandOutcome::NotStarted { cause: "denied".to_string() };
    assert!(matches!(
        pane_opened(&asked, unstarted),
        ResumeAction::Stop {
            result: Err(ResumeError::CreateFailed { failure: CommandFailure::NotStarted { .. }, .. })
        }
    ));
}

#[test]
fn failures_to_run_are_told_apart() {
    let failed = command_started("p".to_string(), exited(false, "", " gone \n")).unwrap_err();
    assert_eq!(failed.message(), "herdr pane run failed: gone");
    let unstarted = CommandOutcome::NotStarted { cause: "denied".to_string() };
    let error = command_started("p".to_string(), unstarted).unwrap_err();
    assert!(matches!(error, ResumeError::RunNotStarted { .. }));
    assert_eq!(error.message(), "herdr pane run failed");
}

#[test]
fn error_output_that_is_no_text_is_replaced() {
    let outcome = CommandOutcome::Exited {
        success: false,
        stdout: Vec::new(),
        stderr: vec![b' ', 0xFF, b'x', b'\n'],
    };
    match run_json(outcome) {
        Err(CommandFailure::Failed { stderr }) => assert_eq!(stderr, "\u{FFFD}x"),
        other => panic!("unexpected: {:?}", other),
    }
}

#[test]
fn resume_errors_say_what_failed() {
    assert_eq!(ResumeError::BinaryNotFound.message(), "herdr binary not found");
    assert_eq!(ResumeError::Disabled.message(), "herdr resume is disabled");
    let response = json::parse("{}").unwrap();
    assert_eq!(
        opened_pane(ResumePlacement::Tab, &response).unwrap_err().message(),
        "herdr tab create returned no root pane id"
    );
    assert_eq!(
        opened_pane(ResumePlacement::Split, &response).unwrap_err().message(),
        "herdr pane split returned no pane id"
    );
    let create = |placement: ResumePlacement| ResumeError::CreateFailed {
        placement,
        failure: run_json(exited(true, "", "")).unwrap_err(),
    };
    assert_eq!(create(ResumePlacement::Tab).message(), "herdr tab create failed");
    assert_eq!(create(ResumePlacement::Split).message(), "herdr pane split failed");
}
