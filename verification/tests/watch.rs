use codex_toolkit::watch::{
    cooldown_secs, diff_lines, read_poll, truncate_chars, CommandWatch, FunctionCallError,
    PollOutcome, PollWait, WatchAction, WatchArgs, WatchEntry, WatchHandler, WatchListHandler,
    WatchPlan, WatchRequest, WatchStopHandler, WatchStopRequest, MAX_OUTPUT_CHARS, MAX_WATCHES,
};
use codex_toolkit::watch_spec::{create_watch_tool, ArgumentType, ToolSpec};

fn watch() -> CommandWatch {
    CommandWatch::new("cmd".to_string(), "do it".to_string())
}

fn poll(watch: &mut CommandWatch, output: &str) -> WatchAction {
    assert!(watch.is_active());
    watch.observe(true, output.to_string())
}

fn fail(watch: &mut CommandWatch) -> WatchAction {
    assert!(watch.is_active());
    watch.observe(false, "whatever".to_string())
}

fn react(diff: &str) -> WatchAction {
    WatchAction::React { text: format!("do it\n\n[watch fired — `cmd` output changed]\n{diff}") }
}

#[test]
fn a_settled_change_is_reacted_to_once() {
    let mut watch = watch();
    for output in ["a\n", "a\n", "a\n"] {
        assert_eq!(poll(&mut watch, output), WatchAction::Continue);
    }
    assert_eq!(poll(&mut watch, "a\nb\n"), WatchAction::Continue);
    assert_eq!(poll(&mut watch, "a\nb\n"), react("+ b\n"));
    assert_eq!(poll(&mut watch, "a\nb\n"), WatchAction::Continue);
}

#[test]
fn a_burst_is_one_reaction_to_all_of_it() {
    let mut watch = watch();
    poll(&mut watch, "a");
    poll(&mut watch, "a");
    for output in ["ab", "abc", "abcd"] {
        assert_eq!(poll(&mut watch, output), WatchAction::Continue);
    }
    assert_eq!(poll(&mut watch, "abcd"), react("+ abcd\n- a\n"));
}

#[test]
fn output_that_comes_back_is_no_change() {
    let mut watch = watch();
    poll(&mut watch, "a");
    poll(&mut watch, "a");
    poll(&mut watch, "b");
    assert_eq!(poll(&mut watch, "a"), WatchAction::Continue);
    assert_eq!(poll(&mut watch, "a"), WatchAction::Continue);
}

#[test]
fn five_failures_in_a_row_end_a_watch() {
    let mut watch = watch();
    for _ in 0..4 {
        assert_eq!(fail(&mut watch), WatchAction::Continue);
    }
    assert_eq!(
        fail(&mut watch),
        WatchAction::AutoStop {
            notice: "[watch auto-stopped after 5 consecutive failures: `cmd`] No further action needed; this watch will no longer poll.".to_string()
        }
    );
    assert!(!watch.is_active());
}

#[test]
fn a_success_resets_the_failures() {
    let mut watch = watch();
    for _ in 0..3 {
        for _ in 0..4 {
            assert_eq!(fail(&mut watch), WatchAction::Continue);
        }
        assert_eq!(poll(&mut watch, "a"), WatchAction::Continue);
    }
    assert!(watch.is_active());
}

#[test]
fn failures_do_not_unsettle_the_output() {
    let mut watch = watch();
    poll(&mut watch, "a");
    poll(&mut watch, "a");
    poll(&mut watch, "b");
    fail(&mut watch);
    assert_eq!(poll(&mut watch, "b"), react("+ b\n- a\n"));
}

#[test]
fn the_diff_tells_what_came_and_what_went() {
    assert_eq!(diff_lines("a\nb\n", "b\nc\nd\n"), "+ c\n+ d\n- a\n");
    assert_eq!(diff_lines("", "x\n"), "+ x\n");
    assert_eq!(diff_lines("x\n", ""), "- x\n");
}

#[test]
fn reordered_output_is_delivered_whole() {
    assert_eq!(diff_lines("a\nb\n", "b\na\n"), "b\na\n");
    assert_eq!(diff_lines("a\n", "a\na\n"), "a\na\n");
}

#[test]
fn changes_of_white_space_deliver_the_new_output() {
    assert_eq!(diff_lines("a", "a "), "a ");
    assert_eq!(diff_lines("a\n\tb\n", "  b\na\t\n"), "  b\na\t\n");
    assert_eq!(diff_lines("a\n", "a \nb\n"), "+ a \n+ b\n- a\n");
}

#[test]
fn long_output_is_cut_by_characters() {
    assert_eq!(truncate_chars("äöü", 3), "äöü");
    assert_eq!(truncate_chars("äöü", 2), "äö…[truncated]");
    let mut watch = watch();
    let long = "x".repeat(MAX_OUTPUT_CHARS + 10);
    poll(&mut watch, "");
    poll(&mut watch, "");
    poll(&mut watch, &long);
    let expected = format!("+ {}…[truncated]", "x".repeat(MAX_OUTPUT_CHARS - 2));
    assert_eq!(poll(&mut watch, &long), react(&expected));
}

#[test]
fn a_poll_reads_both_outputs() {
    let outcome =
        PollOutcome::Ran { success: true, stdout: b"out\n".to_vec(), stderr: b"\xfferr".to_vec() };
    assert_eq!(read_poll(&outcome), (true, "out\n\u{fffd}err".to_string()));
    let failed = PollOutcome::Ran { success: false, stdout: b"x".to_vec(), stderr: Vec::new() };
    assert_eq!(read_poll(&failed), (false, "x".to_string()));
    let (success, _) = read_poll(&PollOutcome::NotRun { error: "no shell".to_string() });
    assert!(!success);
}

#[test]
fn reactions_are_followed_by_a_cooldown() {
    assert_eq!(cooldown_secs(10), 30);
    let wait = |cooldown_secs: u64| Some(PollWait { cooldown_secs, interval_secs: 10 });
    assert_eq!(WatchAction::Continue.wait(10), wait(0));
    assert_eq!(react("").wait(10), wait(30));
    assert_eq!(WatchAction::AutoStop { notice: String::new() }.wait(10), None);
}

#[test]
fn a_notice_is_sent_exactly_when_a_watch_was_stopped() {
    assert_eq!(
        WatchStopHandler.stop_reply(3, true, 1),
        (
            "Stopped watch [3].".to_string(),
            Some("👁 watch [3] stopped — 1 watch(es) running".to_string()),
        )
    );
    assert_eq!(
        WatchStopHandler.stop_reply(3, false, 1),
        ("No active watch with id 3.".to_string(), None)
    );
}

fn request(command: &str, instruction: &str, interval: Option<u64>) -> WatchRequest {
    WatchRequest::Function {
        arguments: Ok(WatchArgs {
            command: command.to_string(),
            instruction: instruction.to_string(),
            interval_seconds: interval,
        }),
    }
}

fn told(result: Result<WatchPlan, FunctionCallError>) -> String {
    match result {
        Err(FunctionCallError::RespondToModel(message)) => message,
        Ok(plan) => panic!("{plan:?}"),
    }
}

#[test]
fn the_handler_plans_watches() {
    for (interval, expected) in [(None, 10), (Some(0), 2), (Some(1), 2), (Some(2), 2), (Some(60), 60)] {
        assert_eq!(
            WatchHandler.handle(request("ls", "look", interval), 0).unwrap(),
            WatchPlan {
                command: "ls".to_string(),
                instruction: "look".to_string(),
                interval_secs: expected,
            }
        );
    }
    assert!(WatchHandler.handle(request("ls", "look", None), MAX_WATCHES - 1).is_ok());
}

#[test]
fn the_handler_refuses() {
    assert_eq!(
        told(WatchHandler.handle(request("ls", "look", None), MAX_WATCHES)),
        "watch limit reached (8 active); stop one with watch_stop first."
    );
    assert_eq!(
        told(WatchHandler.handle(request("  ", "look", None), 0)),
        "watch.command must not be empty"
    );
    assert_eq!(
        told(WatchHandler.handle(request("ls", "\n", None), 0)),
        "watch.instruction must not be empty"
    );
    assert_eq!(
        told(WatchHandler.handle(WatchRequest::Unsupported, 0)),
        "watch handler received unsupported payload"
    );
    let broken = WatchRequest::Function {
        arguments: Err(FunctionCallError::RespondToModel("bad json".to_string())),
    };
    assert_eq!(told(WatchHandler.handle(broken, 0)), "bad json");
}

#[test]
fn the_handlers_report() {
    let plan = WatchHandler.handle(request("ls", "look", None), 0).unwrap();
    assert_eq!(
        WatchHandler.started_message(3, &plan),
        "Watching `ls` (id 3) every 10s. When its output changes I will: look"
    );
    assert_eq!(
        WatchHandler.active_notice(3, "ls", 2),
        "👁 watch [3] active: `ls` — 2 watch(es) running"
    );
    assert_eq!(WatchListHandler.handle(&Vec::new()), "No active watches.");
    let entry = |id: u64, command: &str| WatchEntry {
        id,
        command: command.to_string(),
        instruction: "look".to_string(),
    };
    assert_eq!(
        WatchListHandler.handle(&vec![entry(1, "ls"), entry(12, "ps")]),
        "Active watches:\n  [1] `ls` -> look\n  [12] `ps` -> look"
    );
    assert_eq!(WatchStopHandler.stop_message(3, true), "Stopped watch [3].");
    assert_eq!(WatchStopHandler.stop_message(3, false), "No active watch with id 3.");
    assert_eq!(
        WatchStopHandler.stopped_notice(3, 1),
        "👁 watch [3] stopped — 1 watch(es) running"
    );
    assert_eq!(WatchStopHandler.handle(WatchStopRequest::Function { id: Ok(3) }), Ok(3));
    assert_eq!(
        WatchStopHandler.handle(WatchStopRequest::Unsupported),
        Err(FunctionCallError::RespondToModel(
            "watch_stop received unsupported payload".to_string()
        ))
    );
}

#[test]
fn the_tool_is_described() {
    assert_eq!(WatchHandler.tool_name(), "watch");
    assert_eq!(WatchListHandler.tool_name(), "watch_list");
    assert_eq!(WatchStopHandler.tool_name(), "watch_stop");
    assert!(WatchHandler.supports_parallel_tool_calls());
    assert_eq!(WatchHandler.spec(), Some(create_watch_tool()));
    let ToolSpec::Function(tool) = create_watch_tool();
    assert_eq!(tool.name, "watch");
    let arguments: Vec<(&str, ArgumentType)> = tool
        .parameters
        .properties
        .iter()
        .map(|argument| (argument.name.as_str(), argument.argument_type))
        .collect();
    assert_eq!(
        arguments,
        [
            ("command", ArgumentType::Text),
            ("instruction", ArgumentType::Text),
            ("interval_seconds", ArgumentType::Number),
        ]
    );
    assert_eq!(tool.parameters.required, Some(vec!["command".to_string(), "instruction".to_string()]));
}
