use hive::command::{command_plan, CreatePtyRequest};
use hive::pump::{exit_event, io_outcome, output_event, PtyExit, PumpAction, OUTPUT_BUFFER_SIZE};
use hive::session::{OpError, SessionRegistry};

#[derive(Debug, PartialEq)]
struct FakeTerm {
    rows: u16,
    cols: u16,
    input: Vec<u8>,
}

fn term(rows: u16, cols: u16) -> FakeTerm {
    FakeTerm { rows, cols, input: Vec::new() }
}

fn id(s: &str) -> String {
    s.to_string()
}

#[test]
fn new_registry_is_empty() {
    let reg: SessionRegistry<FakeTerm> = SessionRegistry::new();
    assert!(!reg.contains(&id("s1")));
}

#[test]
fn registered_session_is_found() {
    let mut reg = SessionRegistry::new();
    let (token, replaced) = reg.register(id("s1"), term(24, 80));
    assert_eq!(token, 0);
    assert!(replaced.is_none());
    assert!(reg.contains(&id("s1")));
    assert!(reg.is_current(&id("s1"), token));
    assert_eq!(reg.session_mut(&id("s1")).unwrap().rows, 24);
}

#[test]
fn tokens_are_fresh_per_registration() {
    let mut reg = SessionRegistry::new();
    let (t1, _) = reg.register(id("a"), term(24, 80));
    let (t2, _) = reg.register(id("b"), term(24, 80));
    assert_ne!(t1, t2);
    assert_eq!(t2, t1 + 1);
}

#[test]
fn duplicate_id_replaces_and_returns_previous_handle() {
    let mut reg = SessionRegistry::new();
    let (t1, _) = reg.register(id("s1"), term(24, 80));
    let (t2, replaced) = reg.register(id("s1"), term(50, 120));
    assert_eq!(replaced, Some(term(24, 80)));
    assert!(!reg.is_current(&id("s1"), t1));
    assert!(reg.is_current(&id("s1"), t2));
    assert_eq!(reg.session_mut(&id("s1")).unwrap().cols, 120);
}

#[test]
fn writes_to_one_session_leave_others_alone() {
    let mut reg = SessionRegistry::new();
    let (ta, _) = reg.register(id("a"), term(24, 80));
    let (tb, _) = reg.register(id("b"), term(24, 80));
    reg.session_mut(&id("a")).unwrap().input.extend_from_slice(b"ls\n");
    assert_eq!(reg.session_mut(&id("a")).unwrap().input, b"ls\n".to_vec());
    assert!(reg.session_mut(&id("b")).unwrap().input.is_empty());
    assert!(reg.is_current(&id("b"), tb));
    assert!(reg.is_current(&id("a"), ta));
    match reg.pump_step(&id("b"), tb, Some(b"out-b")) {
        PumpAction::Emit(e) => {
            assert_eq!(e.session_id, "b");
            assert_eq!(e.data, "out-b");
        }
        other => panic!("unexpected {:?}", other),
    }
}

#[test]
fn unknown_id_is_not_found() {
    let mut reg: SessionRegistry<FakeTerm> = SessionRegistry::new();
    assert_eq!(reg.session_mut(&id("ghost")).err(), Some(OpError::NotFound));
    assert_eq!(reg.close(&id("ghost")).err(), Some(OpError::NotFound));
}

#[test]
fn closed_id_is_not_found() {
    let mut reg = SessionRegistry::new();
    reg.register(id("s1"), term(24, 80));
    assert_eq!(reg.close(&id("s1")).ok(), Some(term(24, 80)));
    assert!(!reg.contains(&id("s1")));
    assert_eq!(reg.session_mut(&id("s1")).err(), Some(OpError::NotFound));
    assert_eq!(reg.close(&id("s1")).err(), Some(OpError::NotFound));
}

#[test]
fn close_keeps_other_sessions() {
    let mut reg = SessionRegistry::new();
    reg.register(id("a"), term(1, 1));
    reg.register(id("b"), term(2, 2));
    reg.register(id("c"), term(3, 3));
    assert!(reg.close(&id("a")).is_ok());
    assert_eq!(reg.session_mut(&id("b")).unwrap().rows, 2);
    assert_eq!(reg.session_mut(&id("c")).unwrap().rows, 3);
}

#[test]
fn no_output_after_close() {
    let mut reg = SessionRegistry::new();
    let (token, _) = reg.register(id("s1"), term(24, 80));
    assert!(reg.close(&id("s1")).is_ok());
    assert_eq!(reg.pump_step(&id("s1"), token, Some(b"late bytes")), PumpAction::Discard);
    let (fresh, _) = reg.register(id("s1"), term(24, 80));
    assert_ne!(fresh, token);
    assert_eq!(reg.pump_step(&id("s1"), token, Some(b"late bytes")), PumpAction::Discard);
    assert!(matches!(reg.pump_step(&id("s1"), fresh, Some(b"new")), PumpAction::Emit(_)));
}

#[test]
fn resize_twice_keeps_session_usable() {
    let mut reg = SessionRegistry::new();
    reg.register(id("s1"), term(24, 80));
    {
        let t = reg.session_mut(&id("s1")).unwrap();
        t.rows = 50;
        t.cols = 120;
    }
    {
        let t = reg.session_mut(&id("s1")).unwrap();
        t.rows = 24;
        t.cols = 80;
    }
    let t = reg.session_mut(&id("s1")).unwrap();
    t.input.extend_from_slice(b"echo hi\n");
    assert_eq!((t.rows, t.cols), (24, 80));
    assert_eq!(t.input, b"echo hi\n".to_vec());
}

#[test]
fn echoed_output_reaches_listener() {
    let mut reg = SessionRegistry::new();
    let (token, _) = reg.register(id("s1"), term(24, 80));
    match reg.pump_step(&id("s1"), token, Some(b"echo hi\r\nhi\r\n")) {
        PumpAction::Emit(e) => {
            assert_eq!(e.session_id, "s1");
            assert!(e.data.contains("hi"));
            assert_eq!(e.data, "echo hi\r\nhi\r\n");
        }
        other => panic!("unexpected {:?}", other),
    }
}

#[test]
fn pump_stops_on_end_of_stream_and_error() {
    let mut reg = SessionRegistry::new();
    let (token, _) = reg.register(id("s1"), term(24, 80));
    assert_eq!(reg.pump_step(&id("s1"), token, Some(b"")), PumpAction::Stop);
    assert_eq!(reg.pump_step(&id("s1"), token, None), PumpAction::Stop);
    assert_eq!(reg.pump_step(&id("gone"), 7, None), PumpAction::Stop);
}

#[test]
fn pump_decodes_invalid_utf8_lossily() {
    let mut reg = SessionRegistry::new();
    let (token, _) = reg.register(id("s1"), term(24, 80));
    match reg.pump_step(&id("s1"), token, Some(&[b'a', 0xff, b'b'])) {
        PumpAction::Emit(e) => assert_eq!(e.data, "a\u{FFFD}b"),
        other => panic!("unexpected {:?}", other),
    }
    match reg.pump_step(&id("s1"), token, Some("h\u{e9}".as_bytes())) {
        PumpAction::Emit(e) => assert_eq!(e.data, "h\u{e9}"),
        other => panic!("unexpected {:?}", other),
    }
}

#[test]
fn output_buffer_is_sixteen_kib() {
    assert_eq!(OUTPUT_BUFFER_SIZE, 16 * 1024);
}

#[test]
fn output_event_carries_id_and_text() {
    let e = output_event(&id("s9"), "abc".to_string());
    assert_eq!(e.session_id, "s9");
    assert_eq!(e.data, "abc");
}

#[test]
fn exit_event_reports_code() {
    assert_eq!(
        exit_event(&id("s1"), Some(0)),
        PtyExit { session_id: id("s1"), code: Some(0) }
    );
    assert_eq!(exit_event(&id("s1"), Some(130)).code, Some(130));
    assert_eq!(exit_event(&id("s1"), None).code, None);
    assert_eq!(exit_event(&id("s1"), Some(u32::MAX)).code, Some(-1));
}

#[test]
fn write_after_exit_is_io_failure() {
    let mut reg = SessionRegistry::new();
    let (_token, _) = reg.register(id("s1"), term(24, 80));
    assert_eq!(exit_event(&id("s1"), Some(0)).code, Some(0));
    assert!(reg.session_mut(&id("s1")).is_ok());
    assert_eq!(
        io_outcome(Err("Broken pipe".to_string())),
        Err(OpError::IoFailure("Broken pipe".to_string()))
    );
    assert_eq!(io_outcome(Ok(())), Ok(()));
}

fn request(resume: Option<&str>) -> CreatePtyRequest {
    CreatePtyRequest {
        session_id: id("s1"),
        cwd: "/tmp/project".to_string(),
        rows: 24,
        cols: 80,
        resume_session: resume.map(|s| s.to_string()),
    }
}

#[test]
fn command_plan_without_resume() {
    let inherited = vec![
        ("PATH".to_string(), "/usr/bin".to_string()),
        ("TERM".to_string(), "dumb".to_string()),
    ];
    let plan = command_plan("agent", &request(None), inherited);
    assert_eq!(plan.program, "agent");
    assert!(plan.args.is_empty());
    assert_eq!(plan.cwd, "/tmp/project");
    let env: Vec<(&str, &str)> = plan.env.iter().map(|(k, v)| (k.as_str(), v.as_str())).collect();
    assert_eq!(
        env,
        vec![
            ("PATH", "/usr/bin"),
            ("TERM", "dumb"),
            ("TERM", "xterm-256color"),
            ("COLORTERM", "truecolor"),
            ("TERM_PROGRAM", "hive"),
            ("LANG", "en_US.UTF-8"),
            ("LC_ALL", "en_US.UTF-8"),
        ]
    );
}

#[test]
fn command_plan_with_resume() {
    let plan = command_plan("/usr/bin/env", &request(Some("abc-123")), Vec::new());
    assert_eq!(plan.args, vec!["--resume".to_string(), "abc-123".to_string()]);
    assert_eq!(plan.env.len(), 5);
}
