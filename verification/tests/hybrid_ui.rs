use codex_tui::hybrid_mode::{
    fake_agent_script, print_user_message, session_configured_line, start_session, submit_user_message,
    AgentEvent, HybridState, InputItem, KeyInput, KeyOutcome, Op, ReviewDecision, UiAction,
};
use codex_tui::hybrid_render::{
    approval_prompt_lines, bottom_layout, build_status_line, color_dim, color_magenta, color_yellow,
    export_composer_lines, format_markdown_blocks, history_insert_row, pad_str, truncate_str,
    ApprovalRequestDetails, TokenUsage,
};

fn strip_ansi(s: &str) -> String {
    let mut out = String::new();
    let mut chars = s.chars();
    while let Some(c) = chars.next() {
        if c == '\x1b' {
            for d in chars.by_ref() {
                if d == 'm' {
                    break;
                }
            }
        } else {
            out.push(c);
        }
    }
    out
}

fn history_lines(actions: &[UiAction]) -> Vec<String> {
    let mut v = Vec::new();
    for a in actions {
        if let UiAction::History(ls) = a {
            v.extend(ls.iter().map(|l| strip_ansi(l)));
        }
    }
    v
}

fn key(c: char) -> KeyInput {
    KeyInput { ch: Some(c), ctrl: false }
}

fn ctrl(c: char) -> KeyInput {
    KeyInput { ch: Some(c), ctrl: true }
}

#[test]
fn truncate_and_pad_count_characters() {
    assert_eq!(truncate_str("héllo", 3), "hél");
    assert_eq!(truncate_str("hi", 5), "hi");
    assert_eq!(pad_str("hi", 4), "hi  ");
    assert_eq!(pad_str("héllo", 2), "hé");
    assert_eq!(pad_str("", 0), "");
}

#[test]
fn colours_wrap_text() {
    assert_eq!(color_yellow("a"), "\x1b[33ma\x1b[0m");
    assert_eq!(color_magenta("b"), "\x1b[35mb\x1b[0m");
    assert_eq!(color_dim("c"), "\x1b[2mc\x1b[0m");
}

#[test]
fn status_line_parts() {
    let u = TokenUsage { input_tokens: 12, output_tokens: 3, total_tokens: 15 };
    assert_eq!(build_status_line(0, &u, false, 100), "tok in:12 out:3 total:15");
    assert_eq!(
        build_status_line(2, &u, true, 200),
        "approval pending (2) y/n | tok in:12 out:3 total:15 | press Ctrl+C again to quit"
    );
    assert_eq!(build_status_line(2, &u, false, 10), "approval p");
}

#[test]
fn markdown_blocks_style_each_line() {
    let out = format_markdown_blocks("assistant", "# Title\ntext\n  ```rust\ncode\n```\nafter", "\x1b[32m");
    let plain: Vec<String> = out.iter().map(|l| strip_ansi(l)).collect();
    assert_eq!(
        plain,
        vec!["assistant: # Title", "assistant: text", "assistant: ```", "│ code", "assistant: ```", "assistant: after"]
    );
    assert_eq!(out[0], "\x1b[32m\x1b[1massistant\x1b[0m\x1b[32m:\x1b[0m \x1b[1m# Title\x1b[0m");
    assert_eq!(out[2], "\x1b[32m\x1b[1massistant\x1b[0m\x1b[32m:\x1b[0m \x1b[1m```\x1b[0m");
    assert_eq!(out[3], "\x1b[32m\x1b[2m│\x1b[0m code");
    assert_eq!(out[4], "\x1b[32m\x1b[1massistant\x1b[0m\x1b[32m:\x1b[0m \x1b[2m```\x1b[0m");
    assert!(format_markdown_blocks("assistant", "", "").is_empty());
    // A non-breaking space before the fence still opens a code block.
    let out = format_markdown_blocks("a", "\u{a0}```\n# not a heading", "");
    assert_eq!(strip_ansi(&out[1]), "│ # not a heading");
}

#[test]
fn approval_prompt_for_oldest_request() {
    let reqs = vec![
        ApprovalRequestDetails::Exec {
            id: "1".into(),
            command: vec!["rm".into(), "-rf".into(), "x y".into()],
            cwd: "/tmp".into(),
            reason: Some("cleanup".into()),
        },
        ApprovalRequestDetails::Patch { id: "2".into(), file_count: 3, reason: None, grant_root: None },
    ];
    let lines = approval_prompt_lines(&reqs);
    assert_eq!(
        lines,
        vec![
            color_yellow(&format!("APPROVAL (exec): {:?} cwd=/tmp", vec!["rm", "-rf", "x y"])),
            color_dim("reason: cleanup"),
            color_yellow("press y / n"),
        ]
    );
    let patch = vec![ApprovalRequestDetails::Patch {
        id: "2".into(),
        file_count: 3,
        reason: Some("r".into()),
        grant_root: Some("/g".into()),
    }];
    assert_eq!(
        approval_prompt_lines(&patch),
        vec![
            color_magenta("APPROVAL (patch): 3 files"),
            color_dim("grant root: /g"),
            color_dim("reason: r"),
            color_magenta("press y / n"),
        ]
    );
    assert!(approval_prompt_lines(&vec![]).is_empty());
}

#[test]
fn composer_box_and_cursor() {
    let (lines, row, col) = export_composer_lines(
        &vec!["> /help".to_string()],
        &vec!["hello world".to_string(), "x".to_string()],
        (1, 20),
        10,
        &vec!["APPROVAL very long line".to_string()],
    );
    assert_eq!(
        lines,
        vec!["APPROVAL v", "> /help", "┌────────┐", "│hello wo│", "│x       │", "└────────┘"]
    );
    assert_eq!((row, col), (4, 8));
    let (lines, row, col) = export_composer_lines(&vec![], &vec![String::new()], (0, 0), 1, &vec![]);
    assert_eq!(lines, vec!["┌", "││", "└"]);
    assert_eq!((row, col), (1, 1));
}

#[test]
fn layout_rows() {
    let l = bottom_layout(40, 5, 0);
    assert_eq!((l.buffer_start, l.content_start, l.content_height, l.clear_old_from), (31, 35, 5, None));
    let l = bottom_layout(40, 5, 7);
    assert_eq!(l.clear_old_from, Some(33));
    let l = bottom_layout(6, 5, 3);
    assert_eq!((l.buffer_start, l.content_start, l.clear_old_from), (0, 4, Some(4)));
    assert_eq!(history_insert_row(40, 5), Some(30));
    assert_eq!(history_insert_row(9, 5), None);
}

#[test]
fn streamed_message_printed_once() {
    let mut st = HybridState::new();
    let (a, done) = st.handle_event("t".into(), AgentEvent::AgentMessageDelta { delta: "Hel".into() });
    assert!(a.is_empty() && !done);
    let (a, _) = st.handle_event("t".into(), AgentEvent::AgentMessageDelta { delta: "lo".into() });
    assert!(a.is_empty());
    let (a, done) = st.handle_event("t".into(), AgentEvent::AgentMessage { message: " world".into() });
    assert!(done);
    assert_eq!(history_lines(&a), vec!["assistant: Hello world"]);
    let (a, done) = st.handle_event("t".into(), AgentEvent::AgentMessage { message: "direct".into() });
    assert!(done);
    assert_eq!(history_lines(&a), vec!["assistant: direct"]);
    let (a, _) = st.handle_event("t".into(), AgentEvent::AgentReasoning { text: "think".into() });
    assert_eq!(history_lines(&a), vec!["<reasoning> think"]);
    st.handle_event("t".into(), AgentEvent::AgentReasoningDelta { delta: "A".into() });
    let (a, _) = st.handle_event("t".into(), AgentEvent::AgentReasoning { text: "B".into() });
    assert_eq!(history_lines(&a), vec!["<reasoning> AB"]);
}

#[test]
fn task_complete_flushes_buffers() {
    let mut st = HybridState::new();
    st.handle_event("t".into(), AgentEvent::AgentMessageDelta { delta: "Partial".into() });
    st.handle_event("t".into(), AgentEvent::AgentReasoningDelta { delta: "hmm".into() });
    let (a, done) = st.handle_event("t".into(), AgentEvent::TaskComplete);
    assert!(done);
    assert_eq!(history_lines(&a), vec!["assistant: Partial", "<reasoning> hmm", "[task] complete"]);
    let (a, done) = st.handle_event("t".into(), AgentEvent::TaskComplete);
    assert!(!done);
    assert_eq!(a.len(), 1);
}

#[test]
fn event_lines() {
    let mut st = HybridState::new();
    let (a, _) = st.handle_event("x".into(), AgentEvent::ExecCommandEnd {
        exit_code: -2,
        stdout: "out".into(),
        stderr: String::new(),
    });
    assert_eq!(history_lines(&a), vec!["[exec:done] exit_code=-2", "[stdout]\nout"]);
    let (a, _) = st.handle_event("x".into(), AgentEvent::PatchApplyBegin { auto_approved: false, file_count: 4 });
    assert_eq!(history_lines(&a), vec!["[patch] applying auto_approved=false files=4"]);
    let (a, _) = st.handle_event("x".into(), AgentEvent::PatchApplyEnd {
        success: true,
        stdout: String::new(),
        stderr: "err".into(),
    });
    assert_eq!(history_lines(&a), vec!["[patch:end] success=true", "[stderr]\nerr"]);
    let (a, _) = st.handle_event("x".into(), AgentEvent::ExecCommandBegin { command: vec!["ls".into(), "-l".into()] });
    assert_eq!(history_lines(&a), vec![format!("[exec] {:?}", vec!["ls", "-l"])]);
    let (a, _) = st.handle_event("x".into(), AgentEvent::Error { message: "bad".into() });
    assert_eq!(history_lines(&a), vec!["[error] bad"]);
    let (a, _) = st.handle_event("x".into(), AgentEvent::TaskStarted);
    assert_eq!(history_lines(&a), vec!["[task] started"]);
    let (a, _) = st.handle_event("x".into(), AgentEvent::McpToolCallBegin {
        server: "s".into(),
        tool: "t".into(),
        arguments_debug: "None".into(),
    });
    assert_eq!(history_lines(&a), vec!["[mcp] s:t args=None"]);
    let (a, _) = st.handle_event("x".into(), AgentEvent::McpToolCallEnd { success: false, result_debug: "Err(\"e\")".into() });
    assert_eq!(history_lines(&a), vec!["[mcp:done] success=false result=Err(\"e\")"]);
    let (a, _) = st.handle_event("x".into(), AgentEvent::BackgroundEvent { message: "bg".into() });
    assert_eq!(history_lines(&a), vec!["[background] bg"]);
    let (a, _) = st.handle_event("x".into(), AgentEvent::Other { debug: "Foo".into() });
    assert_eq!(history_lines(&a), vec!["[event] Foo"]);
    let (a, _) = st.handle_event("x".into(), AgentEvent::GetHistoryEntryResponse);
    assert!(a.is_empty());
    let (a, _) = st.handle_event("x".into(), AgentEvent::SessionConfigured {
        model: "m".into(),
        history_entry_count: 3,
        history_log_id: 9,
    });
    assert!(matches!(a.as_slice(), [UiAction::History(ls)] if ls == &vec![session_configured_line("m", 3, 9)]));
    assert_eq!(strip_ansi(&session_configured_line("m", 3, 9)), "session model=m history_entries=3 log_id=9");
    let (a, _) = st.handle_event("x".into(), AgentEvent::TokenCount(TokenUsage {
        input_tokens: 1,
        output_tokens: 2,
        total_tokens: 3,
    }));
    assert!(matches!(a.as_slice(), [UiAction::RequestRedraw]));
    assert_eq!(st.token_usage().total_tokens, 3);
}

#[test]
fn approval_requests_and_keys() {
    let mut st = HybridState::new();
    let (a, _) = st.handle_event("e1".into(), AgentEvent::ExecApprovalRequest {
        command: vec!["ls".into()],
        cwd: "/w".into(),
        reason: None,
    });
    assert!(matches!(&a[0], UiAction::History(ls) if ls == &vec![color_yellow("[approval:exec] id=e1 [\"ls\"] cwd=/w reason=None")]));
    assert!(matches!(a.last(), Some(UiAction::RequestRedraw)));
    let (a, _) = st.handle_event("p1".into(), AgentEvent::ApplyPatchApprovalRequest {
        file_count: 2,
        reason: Some("why".into()),
        grant_root: Some("/r'x".into()),
    });
    assert!(matches!(&a[0], UiAction::History(ls) if ls == &vec![color_magenta(&format!(
        "[approval:patch] id=p1 files=2 grant_root={:?} reason={:?}",
        Some(std::path::PathBuf::from("/r'x")),
        Some("why")
    ))]));
    assert_eq!(st.approvals().len(), 2);
    // A key with text in the composer goes to the composer.
    assert!(matches!(st.handle_key(key('y'), false), KeyOutcome::ToComposer));
    // Another letter does not decide.
    assert!(matches!(st.handle_key(key('x'), true), KeyOutcome::ToComposer));
    match st.handle_key(key('N'), true) {
        KeyOutcome::Decided { op: Op::ExecApproval { id, decision }, line } => {
            assert_eq!(id, "e1");
            assert_eq!(decision, ReviewDecision::Denied);
            assert_eq!(line, "[approval] exec e1 -> Denied");
        }
        _ => panic!("expected a decision"),
    }
    match st.handle_key(key('y'), true) {
        KeyOutcome::Decided { op: Op::PatchApproval { id, decision }, line } => {
            assert_eq!(id, "p1");
            assert_eq!(decision, ReviewDecision::Approved);
            assert_eq!(line, "[approval] patch p1 -> Approved");
        }
        _ => panic!("expected a decision"),
    }
    assert!(st.approvals().is_empty());
    assert!(matches!(st.handle_key(key('y'), true), KeyOutcome::ToComposer));
}

#[test]
fn ctrl_c_and_ctrl_d() {
    let mut st = HybridState::new();
    assert!(matches!(st.handle_key(ctrl('c'), false), KeyOutcome::Redraw));
    assert!(st.ctrl_c_first());
    assert!(matches!(st.handle_key(ctrl('c'), false), KeyOutcome::Quit));
    let mut st = HybridState::new();
    st.handle_key(ctrl('c'), true);
    assert!(matches!(st.handle_key(key('a'), false), KeyOutcome::ToComposer));
    assert!(!st.ctrl_c_first());
    assert!(matches!(st.handle_key(ctrl('c'), false), KeyOutcome::Redraw));
    // Ctrl+D with text keeps quitting armed; on an empty composer it quits.
    assert!(matches!(st.handle_key(ctrl('d'), false), KeyOutcome::ToComposer));
    assert!(st.ctrl_c_first());
    assert!(matches!(st.handle_key(ctrl('d'), true), KeyOutcome::Quit));
    let mut st = HybridState::new();
    assert!(matches!(st.handle_key(KeyInput { ch: None, ctrl: false }, true), KeyOutcome::ToComposer));
}

#[test]
fn submissions() {
    let ops = submit_user_message("hi", &vec!["a.png".to_string()]);
    assert_eq!(ops.len(), 2);
    match &ops[0] {
        Op::UserInput { items } => {
            assert_eq!(items.len(), 2);
            assert!(matches!(&items[0], InputItem::Text { text } if text == "hi"));
            assert!(matches!(&items[1], InputItem::LocalImage { path } if path == "a.png"));
        }
        _ => panic!("expected user input"),
    }
    assert!(matches!(&ops[1], Op::AddToHistory { text } if text == "hi"));
    let ops = submit_user_message("", &vec!["b.png".to_string()]);
    assert_eq!(ops.len(), 1);
    assert!(submit_user_message("", &vec![]).is_empty());
    let (ops, acts) = start_session("", &vec![]);
    assert!(ops.is_empty() && acts.is_empty());
    let (ops, acts) = start_session("go", &vec![]);
    assert_eq!(ops.len(), 2);
    assert_eq!(history_lines(&acts), vec!["you: go"]);
    assert_eq!(history_lines(&[print_user_message("x")]), vec!["you: x"]);
}

#[test]
fn scripted_agent_two_turns() {
    let script = fake_agent_script(Some(2), false);
    assert_eq!(script.len(), 10);
    let mut st = HybridState::new();
    let mut all = Vec::new();
    let mut turns = 0;
    for (id, ev) in script {
        let (a, done) = st.handle_event(id, ev);
        if done {
            turns += 1;
        }
        all.extend(a);
    }
    assert_eq!(turns, 2);
    assert_eq!(
        history_lines(&all),
        vec![
            "session model=fake-model history_entries=0 log_id=1",
            "<reasoning> thinking 1 done 1",
            "assistant: Turn 1 response",
            "<reasoning> thinking 2 done 2",
            "assistant: Turn 2 response",
            "[task] complete",
        ]
    );
}

#[test]
fn scripted_agent_default_reply() {
    let script = fake_agent_script(None, false);
    assert_eq!(script.len(), 6);
    let mut st = HybridState::new();
    let mut all = Vec::new();
    let mut first_done = None;
    for (i, (id, ev)) in script.into_iter().enumerate() {
        let (a, done) = st.handle_event(id, ev);
        if done && first_done.is_none() {
            first_done = Some(i);
        }
        all.extend(a);
    }
    assert_eq!(first_done, Some(4));
    assert!(history_lines(&all).contains(&"assistant: Hello world".to_string()));
}

#[test]
fn scripted_agent_without_finals_flushes_on_completion() {
    let script = fake_agent_script(Some(1), true);
    assert_eq!(script.len(), 4);
    let mut st = HybridState::new();
    let mut all = Vec::new();
    for (id, ev) in script {
        all.extend(st.handle_event(id, ev).0);
    }
    assert_eq!(
        history_lines(&all)[1..].to_vec(),
        vec!["assistant: Turn 1 ", "<reasoning> thinking 1 ", "[task] complete"]
    );
}
