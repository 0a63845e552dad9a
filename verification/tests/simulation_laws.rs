use codex_tui::hybrid_sim::{run_script, SimEvent, Simulation};

fn history(sim: &Simulation) -> Vec<String> {
    sim.export().into_iter().take_while(|l| l != "--BOTTOM--").collect()
}

#[test]
fn new_simulation_exports_only_marker() {
    let sim = Simulation::new();
    assert_eq!(sim.export(), vec!["--BOTTOM--".to_string()]);
    assert_eq!(sim.bottom_line_count(), 0);
    assert_eq!(sim.assert_invariants(), Ok(()));
}

#[test]
fn default_simulation_is_zero_width() {
    let mut sim = Simulation::default();
    sim.apply(SimEvent::ComposerInsert("ab".into()));
    sim.apply(SimEvent::RedrawBottom);
    // Inner width 0: every character gets a row of its own.
    assert_eq!(
        sim.export(),
        vec!["--BOTTOM--", "┌┐", "││", "││", "└┘", "tok in:0 out:0 total:0 approvals:0"]
    );
}

#[test]
fn redraw_renders_exact_bottom_pane() {
    let mut sim = Simulation::new();
    sim.apply(SimEvent::SetWidth(8));
    sim.apply(SimEvent::ComposerInsert("abcdefghij".into()));
    sim.apply(SimEvent::ApprovalRequestPatch { id: "p".into(), file_count: 12 });
    sim.apply(SimEvent::TokenUsage { input: 7, output: 30, total: 37 });
    sim.apply(SimEvent::RedrawBottom);
    assert_eq!(
        sim.export(),
        vec![
            "[approval:patch] id=p files=12",
            "--BOTTOM--",
            "┌──────┐",
            "│abcdef│",
            "│ghij  │",
            "└──────┘",
            "tok in:7 out:30 total:37 approvals:1",
        ]
    );
    assert_eq!(sim.bottom_line_count(), 5);
}

#[test]
fn empty_composer_gives_one_blank_row() {
    let mut sim = Simulation::new();
    sim.apply(SimEvent::SetWidth(2));
    sim.apply(SimEvent::RedrawBottom);
    // Width is raised to 4, so the inner width is 2.
    assert_eq!(sim.export()[1..].to_vec(), vec!["┌──┐", "│  │", "└──┘", "tok in:0 out:0 total:0 approvals:0"]);
}

#[test]
fn wrap_row_count_matches_formula() {
    for (width, len, rows) in [(12usize, 26usize, 3usize), (30, 26, 1), (4, 5, 3), (10, 8, 1), (10, 16, 2)] {
        let mut sim = Simulation::new();
        sim.apply(SimEvent::SetWidth(width));
        sim.apply(SimEvent::ComposerInsert("x".repeat(len)));
        sim.apply(SimEvent::RedrawBottom);
        assert_eq!(sim.bottom_line_count(), rows + 3, "width {width} len {len}");
    }
}

#[test]
fn history_is_append_only_over_every_event() {
    let events = vec![
        SimEvent::UserInput("hi".into()),
        SimEvent::AssistantDelta("a".into()),
        SimEvent::ReasoningDelta("r".into()),
        SimEvent::ApprovalRequestExec { id: "1".into(), command: vec!["ls".into()] },
        SimEvent::RedrawBottom,
        SimEvent::ApprovalDecisionYes,
        SimEvent::ApprovalDecisionNo,
        SimEvent::TokenUsage { input: 1, output: 2, total: 3 },
        SimEvent::ComposerInsert("c".into()),
        SimEvent::ComposerSubmit,
        SimEvent::SetWidth(9),
        SimEvent::PatchApplyBegin { id: "p".into(), file_count: 1, auto: false },
        SimEvent::PatchApplyEnd { id: "p".into(), success: false, stdout: String::new(), stderr: "boom".into() },
        SimEvent::AppendBlock { header: "h".into(), body: "b".into() },
        SimEvent::BuggyAssistantFinal("e".into()),
        SimEvent::TaskComplete,
        SimEvent::RedrawBottom,
    ];
    let mut sim = Simulation::new();
    for ev in events {
        let before = history(&sim);
        sim.apply(ev);
        let after = history(&sim);
        assert!(after.len() >= before.len());
        assert_eq!(&after[..before.len()], &before[..]);
    }
    assert_eq!(sim.assert_invariants(), Ok(()));
}

#[test]
fn exact_history_lines() {
    let sim = run_script(vec![
        SimEvent::UserInput("hi".into()),
        SimEvent::ApprovalRequestExec { id: "1".into(), command: vec!["echo".into(), "a \"q\"".into()] },
        SimEvent::ApprovalDecisionNo,
        SimEvent::ApprovalDecisionYes, // nothing pending: no effect
        SimEvent::PatchApplyBegin { id: "p".into(), file_count: 2, auto: true },
        SimEvent::PatchApplyEnd { id: "p".into(), success: false, stdout: "o1\r\no2\n".into(), stderr: "e".into() },
        SimEvent::BuggyAssistantFinal("x".into()),
        SimEvent::AssistantDelta("part".into()),
        SimEvent::ReasoningDelta("why".into()),
        SimEvent::TaskComplete,
    ]);
    assert_eq!(
        history(&sim),
        vec![
            "you: hi".to_string(),
            format!("[approval:exec] id=1 cmd={:?}", vec!["echo", "a \"q\""]),
            "[approval] exec 1 -> Denied".to_string(),
            "[patch] applying id=p files=2 auto_approved=true".to_string(),
            "[patch:end] id=p success=false".to_string(),
            "[stdout]".to_string(),
            "o1".to_string(),
            "o2".to_string(),
            "[stderr]".to_string(),
            "e".to_string(),
            "assistant: part".to_string(),
            "<reasoning> why".to_string(),
            "[task] complete".to_string(),
        ]
    );
    assert_eq!(sim.assert_invariants(), Ok(()));
}

#[test]
fn empty_submit_and_empty_final() {
    let sim = run_script(vec![SimEvent::ComposerSubmit, SimEvent::AssistantFinal(String::new())]);
    assert_eq!(history(&sim), vec!["assistant: ".to_string()]);
    assert_eq!(sim.assert_invariants(), Ok(()));
}

#[test]
fn report_assistant_count_mismatch() {
    let sim = run_script(vec![SimEvent::AppendBlock { header: "assistant: fake".into(), body: String::new() }]);
    assert_eq!(sim.assert_invariants(), Err("assistant turn count mismatch printed=1 recorded=0".to_string()));
}

#[test]
fn report_reasoning_count_mismatch() {
    let sim = run_script(vec![SimEvent::AppendBlock { header: "x".into(), body: "<reasoning> fake".into() }]);
    assert_eq!(sim.assert_invariants(), Err("reasoning turn count mismatch".to_string()));
}

#[test]
fn report_artefact_in_history() {
    let sim = run_script(vec![SimEvent::AppendBlock { header: "--BOTTOM--".into(), body: String::new() }]);
    assert_eq!(sim.assert_invariants(), Err("bottom artefacts leaked into history".to_string()));
    let sim = run_script(vec![SimEvent::AppendBlock { header: "┌─".into(), body: String::new() }]);
    assert_eq!(sim.assert_invariants(), Err("bottom artefacts leaked into history".to_string()));
}

#[test]
fn report_unfollowed_header() {
    let sim = run_script(vec![SimEvent::AppendBlock { header: "[stderr]".into(), body: String::new() }]);
    assert_eq!(sim.assert_invariants(), Err("stdout/stderr header not followed by content".to_string()));
    let sim = run_script(vec![SimEvent::PatchApplyEnd {
        id: "p".into(),
        success: true,
        stdout: "[x]".into(),
        stderr: String::new(),
    }]);
    assert_eq!(sim.assert_invariants(), Err("stdout/stderr header not followed by content".to_string()));
}

#[test]
fn decisions_follow_request_order() {
    let sim = run_script(vec![
        SimEvent::ApprovalRequestPatch { id: "a".into(), file_count: 1 },
        SimEvent::ApprovalRequestPatch { id: "b".into(), file_count: 1 },
        SimEvent::ApprovalRequestExec { id: "c".into(), command: vec![] },
        SimEvent::ApprovalDecisionYes,
        SimEvent::ApprovalDecisionYes,
        SimEvent::RedrawBottom,
    ]);
    let h = history(&sim);
    assert_eq!(h[3], "[approval] patch a -> Approved");
    assert_eq!(h[4], "[approval] patch b -> Approved");
    assert_eq!(h[2], "[approval:exec] id=c cmd=[]");
    assert!(sim.export().last().unwrap().ends_with("approvals:1"));
}

#[test]
fn token_usage_changes_no_history() {
    let mut sim = Simulation::new();
    sim.apply(SimEvent::UserInput("a".into()));
    let before = history(&sim);
    sim.apply(SimEvent::TokenUsage { input: 4294967295, output: 0, total: 4294967295 });
    sim.apply(SimEvent::RedrawBottom);
    assert_eq!(history(&sim), before);
    assert_eq!(sim.export().last().unwrap(), "tok in:4294967295 out:0 total:4294967295 approvals:0");
}

#[test]
fn pane_line_shown_until_next_redraw() {
    let mut sim = Simulation::new();
    sim.apply(SimEvent::SetWidth(6));
    sim.apply(SimEvent::RedrawBottom);
    sim.apply(SimEvent::UserInput("q".into()));
    sim.apply(SimEvent::BuggyAssistantFinal("lost".into()));
    assert_eq!(
        sim.export(),
        vec![
            "you: q",
            "--BOTTOM--",
            "┌────┐",
            "│    │",
            "└────┘",
            "tok in:0 out:0 total:0 approvals:0",
            "assistant(ephemeral): lost",
        ]
    );
    sim.apply(SimEvent::RedrawBottom);
    assert_eq!(
        sim.export(),
        vec!["you: q", "--BOTTOM--", "┌────┐", "│    │", "└────┘", "tok in:0 out:0 total:0 approvals:0"]
    );
    assert_eq!(sim.assert_invariants(), Ok(()));
}

#[test]
fn second_redraw_changes_nothing() {
    let mut sim = Simulation::new();
    sim.apply(SimEvent::SetWidth(7));
    sim.apply(SimEvent::ComposerInsert("hello world".into()));
    sim.apply(SimEvent::TokenUsage { input: 3, output: 4, total: 7 });
    sim.apply(SimEvent::RedrawBottom);
    let once = sim.export();
    sim.apply(SimEvent::RedrawBottom);
    assert_eq!(sim.export(), once);
}
