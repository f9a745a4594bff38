use lingxi_ascendc::agent::follow::{
    tail_agent_stream, tail_events, wait_or_stop, FollowEvent, FollowStep, Follower, LineAction,
    Wake,
};
use lingxi_ascendc::agent::workflow_tail::{FinalizeKind, WorkflowProgress};

fn chunk(text: &str) -> FollowEvent {
    FollowEvent::Chunk(text.to_owned())
}

#[test]
fn tail_agent_stream_is_noop_when_file_absent_then_stops() {
    let mut f = Follower::new();
    assert_eq!(f.follow(FollowEvent::Begin, false), FollowStep::Open);
    for _ in 0..3 {
        assert_eq!(f.follow(FollowEvent::OpenFailed, false), FollowStep::Wait);
        let fired = wait_or_stop(Wake::Interval { stopped: false });
        assert_eq!(f.follow(FollowEvent::Waited(fired), false), FollowStep::Open);
    }
    assert_eq!(f.follow(FollowEvent::OpenFailed, false), FollowStep::Wait);
    let fired = wait_or_stop(Wake::Signal { closed: false, stopped: true });
    assert_eq!(f.follow(FollowEvent::Waited(fired), true), FollowStep::Finish);
}

#[test]
fn tail_follows_appended_lines_until_terminal() {
    let file = [
        r#"{"type":"run_started","workflow":"gen","cwd":"/x"}"#,
        r#"{"type":"action_started","action_id":"a1","action":{"kind":"spawn_agent","name":"w"}}"#,
        r#"{"type":"action_completed","action_id":"a1","action":{"kind":"spawn_agent","name":"w"},"result":{"marker":{"outcome":"clean"}}}"#,
        r#"{"type":"workflow_done","reason":"ok","outcome":"PASS"}"#,
        r#"{"type":"run_started","workflow":"after the end"}"#,
    ];
    let mut f = Follower::new();
    let mut got = Vec::new();
    let mut unread: Vec<String> = Vec::new();
    for line in file {
        // Every line arrives in two pieces, with the end of the file between them.
        let (a, b) = line.split_at(9);
        unread.push(a.to_owned());
        unread.push(String::new());
        unread.push(format!("{b}\n"));
    }
    let mut unread = unread.into_iter();
    let mut step = f.follow(FollowEvent::Begin, false);
    loop {
        let event = match step {
            FollowStep::Open => FollowEvent::Opened,
            FollowStep::Read => match unread.next() {
                Some(text) if !text.is_empty() => FollowEvent::Chunk(text),
                _ => FollowEvent::EndOfFile,
            },
            FollowStep::Wait => FollowEvent::Waited(false),
            FollowStep::Handle(line) => {
                let (update, action) = tail_events(&line);
                got.extend(update);
                FollowEvent::Handled(action)
            }
            FollowStep::Finish => break,
        };
        step = f.follow(event, false);
    }
    assert_eq!(got.len(), 4, "got = {got:?}");
    assert!(matches!(got[0], WorkflowProgress::Started { .. }));
    assert!(matches!(got[1], WorkflowProgress::ActionStarted { .. }));
    assert!(matches!(got[2], WorkflowProgress::ActionCompleted { .. }));
    assert!(matches!(got[3], WorkflowProgress::Finalized { kind: FinalizeKind::Done, .. }));
}

#[test]
fn tail_stops_on_signal_when_file_never_appears() {
    let mut f = Follower::new();
    assert_eq!(f.follow(FollowEvent::Begin, true), FollowStep::Finish);
    let mut f = Follower::new();
    assert_eq!(f.follow(FollowEvent::OpenFailed, false), FollowStep::Wait);
    assert_eq!(f.follow(FollowEvent::Waited(false), true), FollowStep::Finish);
    assert!(wait_or_stop(Wake::Signal { closed: true, stopped: false }));
    assert!(!wait_or_stop(Wake::Signal { closed: false, stopped: false }));
    assert!(wait_or_stop(Wake::Interval { stopped: true }));
}

#[test]
fn partial_lines_are_kept_until_they_are_whole() {
    let mut f = Follower::new();
    assert_eq!(f.follow(FollowEvent::Opened, true), FollowStep::Read);
    assert_eq!(f.follow(chunk("ab"), true), FollowStep::Read);
    assert_eq!(f.pending, "ab");
    assert_eq!(f.follow(chunk("c\n"), true), FollowStep::Handle("abc\n".to_owned()));
    assert_eq!(f.pending, "");
    assert_eq!(f.follow(FollowEvent::Handled(LineAction::Continue), true), FollowStep::Read);
    assert_eq!(f.follow(FollowEvent::EndOfFile, false), FollowStep::Wait);
    assert_eq!(f.follow(FollowEvent::Waited(false), false), FollowStep::Read);
    assert_eq!(f.follow(FollowEvent::EndOfFile, true), FollowStep::Finish);
    assert_eq!(f.follow(FollowEvent::ReadFailed, false), FollowStep::Finish);
    assert_eq!(f.follow(FollowEvent::Handled(LineAction::Stop), false), FollowStep::Finish);
}

#[test]
fn the_subagent_stream_has_no_end_of_its_own() {
    let (event, action) =
        tail_agent_stream(r#"{"action_id":"a","kind":"tool_use","name":"Bash"}"#);
    assert_eq!(event.expect("event").name, "Bash");
    assert_eq!(action, LineAction::Continue);
    let (event, action) = tail_agent_stream(r#"{"type":"workflow_done"}"#);
    assert!(event.is_none());
    assert_eq!(action, LineAction::Continue);
}
