//! The decisions of the append-only terminal UI: what each agent event
//! prints and changes, what each key does, and what a submitted message
//! sends. The caller performs the terminal writes and channel sends that the
//! returned actions describe.
use vstd::prelude::*;

use crate::hybrid_render::{
    format_markdown_blocks, markdown_blocks, opt_view, request_id, requests_view, styled,
    ApprovalRequestDetails, RequestView, TokenUsage, BOLD, DIM, FG_CYAN, FG_GREEN, FG_MAGENTA,
    FG_YELLOW, RESET,
};
use crate::text::{
    bool_text, chars_of, debug_list, debug_path, debug_str, decimal, push_bool, push_chars,
    push_debug_list, push_debug_path, push_debug_str, push_decimal, push_str, string_of,
};

verus! {

/// An event from the agent, holding as plain values what the UI reads of it.
/// Paths are held as the text the terminal shows for them; values the UI
/// only prints in their `Debug` form are held as that text.
#[derive(Clone, Debug)]
pub enum AgentEvent {
    AgentMessageDelta { delta: String },
    AgentMessage { message: String },
    AgentReasoningDelta { delta: String },
    AgentReasoning { text: String },
    TokenCount(TokenUsage),
    TaskStarted,
    TaskComplete,
    Error { message: String },
    ExecApprovalRequest { command: Vec<String>, cwd: String, reason: Option<String> },
    ApplyPatchApprovalRequest { file_count: usize, reason: Option<String>, grant_root: Option<String> },
    ExecCommandBegin { command: Vec<String> },
    ExecCommandEnd { exit_code: i32, stdout: String, stderr: String },
    PatchApplyBegin { auto_approved: bool, file_count: usize },
    PatchApplyEnd { success: bool, stdout: String, stderr: String },
    McpToolCallBegin { server: String, tool: String, arguments_debug: String },
    McpToolCallEnd { success: bool, result_debug: String },
    SessionConfigured { model: String, history_entry_count: usize, history_log_id: u64 },
    GetHistoryEntryResponse,
    BackgroundEvent { message: String },
    Other { debug: String },
}

/// Something the terminal has to do.
#[derive(Clone, Debug)]
pub enum UiAction {
    /// Print these lines into the scrollback just above the bottom pane,
    /// then redraw the pane.
    History(Vec<String>),
    /// Redraw the bottom pane.
    RequestRedraw,
}

pub ghost enum ActionView {
    History(Seq<Seq<char>>),
    RequestRedraw,
}

impl UiAction {
    pub open spec fn spec_view(self) -> ActionView {
        match self {
            UiAction::History(ls) => ActionView::History(ls.deep_view()),
            UiAction::RequestRedraw => ActionView::RequestRedraw,
        }
    }
}

/// One line inserted into the history.
pub open spec fn line_action(l: Seq<char>) -> ActionView {
    ActionView::History(seq![l])
}

pub open spec fn actions_view(a: Seq<UiAction>) -> Seq<ActionView> {
    a.map_values(|x: UiAction| x.spec_view())
}

/// What the user decided on a request.
#[derive(Clone, Copy, Debug, PartialEq, Eq)]
pub enum ReviewDecision {
    Approved,
    Denied,
}

/// Something to put into the agent's input.
#[derive(Clone, Debug)]
pub enum InputItem {
    Text { text: String },
    LocalImage { path: String },
}

/// A submission to the agent.
#[derive(Clone, Debug)]
pub enum Op {
    UserInput { items: Vec<InputItem> },
    AddToHistory { text: String },
    ExecApproval { id: String, decision: ReviewDecision },
    PatchApproval { id: String, decision: ReviewDecision },
}

pub ghost enum ItemView {
    Text(Seq<char>),
    LocalImage(Seq<char>),
}

pub ghost enum OpView {
    UserInput(Seq<ItemView>),
    AddToHistory(Seq<char>),
    ExecApproval(Seq<char>, ReviewDecision),
    PatchApproval(Seq<char>, ReviewDecision),
}

impl InputItem {
    pub open spec fn spec_view(self) -> ItemView {
        match self {
            InputItem::Text { text } => ItemView::Text(text@),
            InputItem::LocalImage { path } => ItemView::LocalImage(path@),
        }
    }
}

impl Op {
    pub open spec fn spec_view(self) -> OpView {
        match self {
            Op::UserInput { items } => OpView::UserInput(
                items@.map_values(|i: InputItem| i.spec_view()),
            ),
            Op::AddToHistory { text } => OpView::AddToHistory(text@),
            Op::ExecApproval { id, decision } => OpView::ExecApproval(id@, decision),
            Op::PatchApproval { id, decision } => OpView::PatchApproval(id@, decision),
        }
    }
}

pub open spec fn ops_view(ops: Seq<Op>) -> Seq<OpView> {
    ops.map_values(|o: Op| o.spec_view())
}

/// A key as the UI reads it: the character, when it is one, and whether
/// Ctrl was held.
#[derive(Clone, Copy, Debug)]
pub struct KeyInput {
    pub ch: Option<char>,
    pub ctrl: bool,
}

/// What a key press leads to.
#[derive(Clone, Debug)]
pub enum KeyOutcome {
    /// Leave the UI.
    Quit,
    /// Redraw the bottom pane and wait for the next key.
    Redraw,
    /// A decision on the oldest request: send `op`, insert `line` into the
    /// history, redraw.
    Decided { op: Op, line: String },
    /// Give the key to the composer, then redraw.
    ToComposer,
}

pub ghost enum KeyView {
    Quit,
    Redraw,
    Decided(OpView, Seq<char>),
    ToComposer,
}

impl KeyOutcome {
    pub open spec fn spec_view(self) -> KeyView {
        match self {
            KeyOutcome::Quit => KeyView::Quit,
            KeyOutcome::Redraw => KeyView::Redraw,
            KeyOutcome::Decided { op, line } => KeyView::Decided(op.spec_view(), line@),
            KeyOutcome::ToComposer => KeyView::ToComposer,
        }
    }
}

/// The state the UI keeps between events.
pub struct HybridState {
    approvals: Vec<ApprovalRequestDetails>,
    token_usage: TokenUsage,
    last_bottom_content_height: u16,
    ctrl_c_first: bool,
    answer: Vec<char>,
    reasoning: Vec<char>,
}

pub ghost struct HybridView {
    /// Requests waiting for y / n, oldest first.
    pub approvals: Seq<RequestView>,
    pub token_usage: TokenUsage,
    /// Height of the bottom pane as last drawn.
    pub pane_height: u16,
    /// A first Ctrl+C was pressed; a second one quits.
    pub ctrl_c_first: bool,
    /// Assistant text streamed since the last printed message.
    pub answer: Seq<char>,
    /// Reasoning text streamed since the last printed reasoning.
    pub reasoning: Seq<char>,
}

impl View for HybridState {
    type V = HybridView;

    closed spec fn view(&self) -> HybridView {
        HybridView {
            approvals: requests_view(self.approvals@),
            token_usage: self.token_usage,
            pane_height: self.last_bottom_content_height,
            ctrl_c_first: self.ctrl_c_first,
            answer: self.answer@,
            reasoning: self.reasoning@,
        }
    }
}

// ---------------------------------------------------------------------------
// The model.
// ---------------------------------------------------------------------------

/// The state the UI starts with.
pub open spec fn initial_view() -> HybridView {
    HybridView {
        approvals: Seq::empty(),
        token_usage: TokenUsage { input_tokens: 0, output_tokens: 0, total_tokens: 0 },
        pane_height: 0,
        ctrl_c_first: false,
        answer: Seq::empty(),
        reasoning: Seq::empty(),
    }
}

/// An optional text in std's `Debug` form.
pub open spec fn debug_opt(o: Option<Seq<char>>) -> Seq<char> {
    match o {
        Some(t) => "Some("@ + debug_str(t) + ")"@,
        None => "None"@,
    }
}

/// An optional path, given by its text, in std's `Debug` form.
pub open spec fn debug_opt_path(o: Option<Seq<char>>) -> Seq<char> {
    match o {
        Some(t) => "Some("@ + debug_path(t) + ")"@,
        None => "None"@,
    }
}

/// A signed integer in decimal.
pub open spec fn signed_decimal(n: int) -> Seq<char> {
    if n < 0 {
        "-"@ + decimal((-n) as nat)
    } else {
        decimal(n as nat)
    }
}

/// The history batch for an assistant message; nothing for an empty one.
pub open spec fn agent_message_actions(t: Seq<char>) -> Seq<ActionView> {
    let blocks = markdown_blocks("assistant"@, t, FG_GREEN@);
    if blocks.len() > 0 {
        seq![ActionView::History(blocks)]
    } else {
        Seq::empty()
    }
}

pub open spec fn reasoning_line(t: Seq<char>) -> Seq<char> {
    DIM@ + FG_MAGENTA@ + "<reasoning>"@ + RESET@ + " "@ + DIM@ + t + RESET@
}

pub open spec fn user_line(t: Seq<char>) -> Seq<char> {
    BOLD@ + FG_CYAN@ + "you"@ + RESET@ + ": "@ + t
}

pub open spec fn session_line(model: Seq<char>, count: nat, log_id: nat) -> Seq<char> {
    FG_YELLOW@ + "session"@ + RESET@ + " model="@ + model + " history_entries="@ + decimal(count)
        + " log_id="@ + decimal(log_id)
}

/// The output blocks printed after a command or patch: each non-empty one
/// under its header.
pub open spec fn output_prints(stdout: Seq<char>, stderr: Seq<char>) -> Seq<ActionView> {
    (if stdout.len() > 0 {
        seq![line_action("[stdout]\n"@ + stdout)]
    } else {
        Seq::empty()
    }) + (if stderr.len() > 0 {
        seq![line_action("[stderr]\n"@ + stderr)]
    } else {
        Seq::empty()
    })
}

/// What the event `msg` with id `id` does: the new state, the actions in
/// order, and whether it ended an assistant turn.
pub open spec fn agent_step(s: HybridView, id: Seq<char>, msg: AgentEvent) -> (
    HybridView,
    Seq<ActionView>,
    bool,
) {
    match msg {
        AgentEvent::AgentMessageDelta { delta } => (
            HybridView { answer: s.answer + delta@, ..s },
            Seq::empty(),
            false,
        ),
        AgentEvent::AgentMessage { message } => (
            HybridView { answer: Seq::empty(), ..s },
            agent_message_actions(s.answer + message@),
            true,
        ),
        AgentEvent::AgentReasoningDelta { delta } => (
            HybridView { reasoning: s.reasoning + delta@, ..s },
            Seq::empty(),
            false,
        ),
        AgentEvent::AgentReasoning { text } => (
            HybridView { reasoning: Seq::empty(), ..s },
            seq![
                ActionView::History(
                    seq![
                        reasoning_line(s.reasoning + text@),
                    ],
                ),
            ],
            false,
        ),
        AgentEvent::TokenCount(u) => (
            HybridView { token_usage: u, ..s },
            seq![ActionView::RequestRedraw],
            false,
        ),
        AgentEvent::TaskStarted => (s, seq![line_action("[task] started"@)], false),
        AgentEvent::TaskComplete => (
            HybridView { answer: Seq::empty(), reasoning: Seq::empty(), ..s },
            (if s.answer.len() > 0 {
                agent_message_actions(s.answer)
            } else {
                Seq::empty()
            }) + (if s.reasoning.len() > 0 {
                seq![ActionView::History(seq![reasoning_line(s.reasoning)])]
            } else {
                Seq::empty()
            }) + seq![line_action("[task] complete"@)],
            s.answer.len() > 0,
        ),
        AgentEvent::Error { message } => (
            s,
            seq![line_action("[error] "@ + message@)],
            false,
        ),
        AgentEvent::ExecApprovalRequest { command, cwd, reason } => (
            HybridView {
                approvals: s.approvals.push(
                    RequestView::Exec {
                        id,
                        command: command.deep_view(),
                        cwd: cwd@,
                        reason: opt_view(reason),
                    },
                ),
                ..s
            },
            seq![
                line_action(
                    styled(
                        FG_YELLOW@,
                        "[approval:exec] id="@ + id + " "@ + debug_list(command.deep_view())
                            + " cwd="@ + cwd@ + " reason="@ + debug_opt(opt_view(reason)),
                    ),
                ),
                ActionView::RequestRedraw,
            ],
            false,
        ),
        AgentEvent::ApplyPatchApprovalRequest { file_count, reason, grant_root } => (
            HybridView {
                approvals: s.approvals.push(
                    RequestView::Patch {
                        id,
                        file_count: file_count as nat,
                        reason: opt_view(reason),
                        grant_root: opt_view(grant_root),
                    },
                ),
                ..s
            },
            seq![
                line_action(
                    styled(
                        FG_MAGENTA@,
                        "[approval:patch] id="@ + id + " files="@ + decimal(file_count as nat)
                            + " grant_root="@ + debug_opt_path(opt_view(grant_root)) + " reason="@
                            + debug_opt(opt_view(reason)),
                    ),
                ),
                ActionView::RequestRedraw,
            ],
            false,
        ),
        AgentEvent::ExecCommandBegin { command } => (
            s,
            seq![line_action("[exec] "@ + debug_list(command.deep_view()))],
            false,
        ),
        AgentEvent::ExecCommandEnd { exit_code, stdout, stderr } => (
            s,
            seq![line_action("[exec:done] exit_code="@ + signed_decimal(exit_code as int))]
                + output_prints(stdout@, stderr@),
            false,
        ),
        AgentEvent::PatchApplyBegin { auto_approved, file_count } => (
            s,
            seq![
                line_action(
                    "[patch] applying auto_approved="@ + bool_text(auto_approved) + " files="@
                        + decimal(file_count as nat),
                ),
            ],
            false,
        ),
        AgentEvent::PatchApplyEnd { success, stdout, stderr } => (
            s,
            seq![line_action("[patch:end] success="@ + bool_text(success))] + output_prints(
                stdout@,
                stderr@,
            ),
            false,
        ),
        AgentEvent::McpToolCallBegin { server, tool, arguments_debug } => (
            s,
            seq![
                line_action(
                    "[mcp] "@ + server@ + ":"@ + tool@ + " args="@ + arguments_debug@,
                ),
            ],
            false,
        ),
        AgentEvent::McpToolCallEnd { success, result_debug } => (
            s,
            seq![
                line_action(
                    "[mcp:done] success="@ + bool_text(success) + " result="@ + result_debug@,
                ),
            ],
            false,
        ),
        AgentEvent::SessionConfigured { model, history_entry_count, history_log_id } => (
            s,
            seq![
                line_action(
                    session_line(model@, history_entry_count as nat, history_log_id as nat),
                ),
            ],
            false,
        ),
        AgentEvent::GetHistoryEntryResponse => (s, Seq::empty(), false),
        AgentEvent::BackgroundEvent { message } => (
            s,
            seq![line_action("[background] "@ + message@)],
            false,
        ),
        AgentEvent::Other { debug } => (s, seq![line_action("[event] "@ + debug@)], false),
    }
}



/// The decision a key stands for, if any.
pub open spec fn decision_for(c: char) -> Option<ReviewDecision> {
    if c == 'y' || c == 'Y' {
        Some(ReviewDecision::Approved)
    } else if c == 'n' || c == 'N' {
        Some(ReviewDecision::Denied)
    } else {
        None
    }
}

/// How a decision is printed (its `Debug` form).
pub open spec fn decision_text(d: ReviewDecision) -> Seq<char> {
    match d {
        ReviewDecision::Approved => "Approved"@,
        ReviewDecision::Denied => "Denied"@,
    }
}

/// The submission that answers request `r` with `d`.
pub open spec fn decision_op(r: RequestView, d: ReviewDecision) -> OpView {
    match r {
        RequestView::Exec { id, .. } => OpView::ExecApproval(id, d),
        RequestView::Patch { id, .. } => OpView::PatchApproval(id, d),
    }
}

/// The line printed when request `r` is answered with `d`.
pub open spec fn decision_print(r: RequestView, d: ReviewDecision) -> Seq<char> {
    "[approval] "@ + (match r {
        RequestView::Exec { .. } => "exec"@,
        RequestView::Patch { .. } => "patch"@,
    }) + " "@ + request_id(r) + " -> "@ + decision_text(d)
}

pub open spec fn is_ctrl(key: KeyInput, c: char) -> bool {
    key.ctrl && key.ch == Some(c)
}

/// What key `key` does: Ctrl+C once arms quitting and twice quits, Ctrl+D
/// on an empty composer quits, y / n on an empty composer answer the oldest
/// request, and any other key goes to the composer. Every key but Ctrl+C and
/// Ctrl+D disarms quitting.
pub open spec fn key_step(s: HybridView, key: KeyInput, composer_empty: bool) -> (HybridView, KeyView) {
    if is_ctrl(key, 'c') {
        if s.ctrl_c_first {
            (s, KeyView::Quit)
        } else {
            (HybridView { ctrl_c_first: true, ..s }, KeyView::Redraw)
        }
    } else if is_ctrl(key, 'd') && composer_empty {
        (s, KeyView::Quit)
    } else {
        let s1 = if is_ctrl(key, 'd') {
            s
        } else {
            HybridView { ctrl_c_first: false, ..s }
        };
        if composer_empty && s1.approvals.len() > 0 && key.ch is Some && decision_for(
            key.ch->0,
        ) is Some {
            let d = decision_for(key.ch->0)->0;
            (
                HybridView { approvals: s1.approvals.drop_first(), ..s1 },
                KeyView::Decided(
                    decision_op(s1.approvals[0], d),
                    decision_print(s1.approvals[0], d),
                ),
            )
        } else {
            (s1, KeyView::ToComposer)
        }
    }
}

/// What a submitted message sends: its text (when any) and images as one
/// input, then the text to the history; nothing when both are empty.
pub open spec fn submission_ops(text: Seq<char>, images: Seq<Seq<char>>) -> Seq<OpView> {
    let items = (if text.len() > 0 {
        seq![ItemView::Text(text)]
    } else {
        Seq::empty()
    }) + images.map_values(|p: Seq<char>| ItemView::LocalImage(p));
    if items.len() == 0 {
        Seq::empty()
    } else {
        seq![OpView::UserInput(items)] + (if text.len() > 0 {
            seq![OpView::AddToHistory(text)]
        } else {
            Seq::empty()
        })
    }
}

// ---------------------------------------------------------------------------
// Executable code.
// ---------------------------------------------------------------------------

fn text_of(parts: &Vec<char>) -> (s: String)
    ensures
        s@ == parts@,
{
    string_of(parts)
}

fn push_debug_opt(v: &mut Vec<char>, o: &Option<String>)
    ensures
        final(v)@ == old(v)@ + debug_opt(opt_view(*o)),
{
    match o {
        Some(t) => {
            push_str(v, "Some(");
            push_debug_str(v, t.as_str());
            push_str(v, ")");
        },
        None => {
            push_str(v, "None");
        },
    }
}

fn push_debug_opt_path(v: &mut Vec<char>, o: &Option<String>)
    ensures
        final(v)@ == old(v)@ + debug_opt_path(opt_view(*o)),
{
    match o {
        Some(t) => {
            push_str(v, "Some(");
            push_debug_path(v, t.as_str());
            push_str(v, ")");
        },
        None => {
            push_str(v, "None");
        },
    }
}

fn push_signed(v: &mut Vec<char>, n: i32)
    ensures
        final(v)@ == old(v)@ + signed_decimal(n as int),
{
    if n < 0 {
        push_str(v, "-");
        let m: i64 = -(n as i64);
        push_decimal(v, m as u64);
    } else {
        push_decimal(v, n as u64);
    }
}

/// The history action for an assistant message (none when it has no line).
fn agent_message(t: &Vec<char>) -> (r: Vec<UiAction>)
    ensures
        actions_view(r@) == agent_message_actions(t@),
{
    let text = string_of(t);
    let blocks = format_markdown_blocks("assistant", text.as_str(), FG_GREEN);
    let mut r: Vec<UiAction> = Vec::new();
    if blocks.len() > 0 {
        r.push(UiAction::History(blocks));
    }
    assert(actions_view(r@) =~= agent_message_actions(t@));
    r
}

/// The history action for a reasoning text.
fn reasoning_action(t: &Vec<char>) -> (r: UiAction)
    ensures
        r.spec_view() == ActionView::History(seq![reasoning_line(t@)]),
{
    let mut l = chars_of(DIM);
    push_str(&mut l, FG_MAGENTA);
    push_str(&mut l, "<reasoning>");
    push_str(&mut l, RESET);
    push_str(&mut l, " ");
    push_str(&mut l, DIM);
    push_chars(&mut l, t);
    push_str(&mut l, RESET);
    let mut v: Vec<String> = Vec::new();
    v.push(string_of(&l));
    assert(v.deep_view() =~= seq![reasoning_line(t@)]);
    UiAction::History(v)
}

fn history_line(l: &Vec<char>) -> (r: UiAction)
    ensures
        r.spec_view() == line_action(l@),
{
    let mut v: Vec<String> = Vec::new();
    v.push(string_of(l));
    assert(v.deep_view() =~= seq![l@]);
    UiAction::History(v)
}

/// The lines printed for command or patch output.
fn output_actions(actions: &mut Vec<UiAction>, stdout: &str, stderr: &str)
    ensures
        actions_view(final(actions)@) == actions_view(old(actions)@) + output_prints(stdout@, stderr@),
{
    let ghost start = actions_view(actions@);
    if !stdout.is_empty() {
        let mut l = chars_of("[stdout]\n");
        push_str(&mut l, stdout);
        actions.push(history_line(&l));
    }
    let ghost mid = actions_view(actions@);
    assert(mid =~= start + (if stdout@.len() > 0 {
        seq![line_action("[stdout]\n"@ + stdout@)]
    } else {
        Seq::empty()
    }));
    if !stderr.is_empty() {
        let mut l = chars_of("[stderr]\n");
        push_str(&mut l, stderr);
        actions.push(history_line(&l));
    }
    assert(actions_view(actions@) =~= start + output_prints(stdout@, stderr@));
}

/// The line announcing a configured session.
pub fn session_configured_line(model: &str, history_entry_count: usize, history_log_id: u64) -> (r:
    String)
    ensures
        r@ == session_line(model@, history_entry_count as nat, history_log_id as nat),
{
    let mut l = chars_of(FG_YELLOW);
    push_str(&mut l, "session");
    push_str(&mut l, RESET);
    push_str(&mut l, " model=");
    push_str(&mut l, model);
    push_str(&mut l, " history_entries=");
    push_decimal(&mut l, history_entry_count as u64);
    push_str(&mut l, " log_id=");
    push_decimal(&mut l, history_log_id);
    string_of(&l)
}

/// The history line for a message the user sent.
pub fn print_user_message(t: &str) -> (r: UiAction)
    ensures
        r.spec_view() == ActionView::History(seq![user_line(t@)]),
{
    let mut l = chars_of(BOLD);
    push_str(&mut l, FG_CYAN);
    push_str(&mut l, "you");
    push_str(&mut l, RESET);
    push_str(&mut l, ": ");
    push_str(&mut l, t);
    let mut v: Vec<String> = Vec::new();
    v.push(string_of(&l));
    assert(v.deep_view() =~= seq![user_line(t@)]);
    UiAction::History(v)
}

/// What to send for a message the user submitted with `images` attached.
pub fn submit_user_message(text: &str, images: &Vec<String>) -> (ops: Vec<Op>)
    ensures
        ops_view(ops@) == submission_ops(text@, images.deep_view()),
{
    let mut items: Vec<InputItem> = Vec::new();
    let has_text = !text.is_empty();
    if has_text {
        items.push(InputItem::Text { text: string_of(&chars_of(text)) });
    }
    let ghost first = items@.map_values(|i: InputItem| i.spec_view());
    assert(first =~= (if text@.len() > 0 {
        seq![ItemView::Text(text@)]
    } else {
        Seq::<ItemView>::empty()
    }));
    for i in 0..images.len()
        invariant
            items@.map_values(|i: InputItem| i.spec_view()) == first + images.deep_view().take(
                i as int,
            ).map_values(|p: Seq<char>| ItemView::LocalImage(p)),
    {
        let ghost before = items@.map_values(|i: InputItem| i.spec_view());
        let p = string_of(&chars_of(images[i].as_str()));
        items.push(InputItem::LocalImage { path: p });
        assert(items@.map_values(|i: InputItem| i.spec_view()) =~= before.push(
            ItemView::LocalImage(images@[i as int]@),
        ));
        assert(images.deep_view().take(i + 1).map_values(|p: Seq<char>| ItemView::LocalImage(p))
            =~= images.deep_view().take(i as int).map_values(
            |p: Seq<char>| ItemView::LocalImage(p),
        ).push(ItemView::LocalImage(images@[i as int]@)));
    }
    assert(images.deep_view().take(images.len() as int) =~= images.deep_view());
    let mut ops: Vec<Op> = Vec::new();
    if items.len() == 0 {
        assert(ops_view(ops@) =~= submission_ops(text@, images.deep_view()));
        return ops;
    }
    let ghost iv = items@.map_values(|i: InputItem| i.spec_view());
    ops.push(Op::UserInput { items });
    if has_text {
        ops.push(Op::AddToHistory { text: string_of(&chars_of(text)) });
    }
    assert(ops_view(ops@) =~= submission_ops(text@, images.deep_view()));
    ops
}

/// At start-up: the initial prompt and images are submitted and the prompt
/// printed, unless both are empty.
pub fn start_session(prompt: &str, images: &Vec<String>) -> (r: (Vec<Op>, Vec<UiAction>))
    ensures
        prompt@.len() == 0 && images.len() == 0 ==> r.0@.len() == 0 && r.1@.len() == 0,
        !(prompt@.len() == 0 && images.len() == 0) ==> ops_view(r.0@) == submission_ops(
            prompt@,
            images.deep_view(),
        ) && actions_view(r.1@) == seq![ActionView::History(seq![user_line(prompt@)])],
{
    if prompt.is_empty() && images.len() == 0 {
        return (Vec::new(), Vec::new());
    }
    let ops = submit_user_message(prompt, images);
    let mut actions: Vec<UiAction> = Vec::new();
    actions.push(print_user_message(prompt));
    assert(actions_view(actions@) =~= seq![ActionView::History(seq![user_line(prompt@)])]);
    (ops, actions)
}

impl HybridState {
    /// The state the UI starts with.
    pub fn new() -> (s: Self)
        ensures
            s@ == initial_view(),
    {
        let s = HybridState {
            approvals: Vec::new(),
            token_usage: TokenUsage { input_tokens: 0, output_tokens: 0, total_tokens: 0 },
            last_bottom_content_height: 0,
            ctrl_c_first: false,
            answer: Vec::new(),
            reasoning: Vec::new(),
        };
        assert(s@.approvals =~= Seq::<RequestView>::empty());
        s
    }

    /// Requests waiting for y / n, oldest first.
    pub fn approvals(&self) -> (r: &Vec<ApprovalRequestDetails>)
        ensures
            requests_view(r@) == self@.approvals,
    {
        &self.approvals
    }

    /// The token counters as last reported.
    pub fn token_usage(&self) -> (r: TokenUsage)
        ensures
            r == self@.token_usage,
    {
        self.token_usage
    }

    /// Whether a first Ctrl+C was pressed.
    pub fn ctrl_c_first(&self) -> (r: bool)
        ensures
            r == self@.ctrl_c_first,
    {
        self.ctrl_c_first
    }

    /// Height of the bottom pane as last drawn.
    pub fn pane_height(&self) -> (r: u16)
        ensures
            r == self@.pane_height,
    {
        self.last_bottom_content_height
    }

    /// Records the height of the pane just drawn.
    pub fn set_pane_height(&mut self, h: u16)
        ensures
            final(self)@ == (HybridView { pane_height: h, ..old(self)@ }),
    {
        self.last_bottom_content_height = h;
    }

    fn take_answer(&mut self) -> (r: Vec<char>)
        ensures
            r@ == old(self)@.answer,
            final(self)@ == (HybridView { answer: Seq::empty(), ..old(self)@ }),
    {
        let mut out: Vec<char> = Vec::new();
        std::mem::swap(&mut out, &mut self.answer);
        assert(self@.answer =~= Seq::<char>::empty());
        out
    }

    fn take_reasoning(&mut self) -> (r: Vec<char>)
        ensures
            r@ == old(self)@.reasoning,
            final(self)@ == (HybridView { reasoning: Seq::empty(), ..old(self)@ }),
    {
        let mut out: Vec<char> = Vec::new();
        std::mem::swap(&mut out, &mut self.reasoning);
        assert(self@.reasoning =~= Seq::<char>::empty());
        out
    }

    fn push_approval(&mut self, r: ApprovalRequestDetails)
        ensures
            final(self)@ == (HybridView {
                approvals: old(self)@.approvals.push(r.spec_view()),
                ..old(self)@
            }),
    {
        self.approvals.push(r);
        assert(self@.approvals =~= old(self)@.approvals.push(r.spec_view()));
    }

    /// Handles one event of the agent: returns the terminal actions in order
    /// and whether it ended an assistant turn.
    pub fn handle_event(&mut self, id: String, msg: AgentEvent) -> (r: (Vec<UiAction>, bool))
        ensures
            ({
                let (s2, acts, done) = agent_step(old(self)@, id@, msg);
                &&& final(self)@ == s2
                &&& actions_view(r.0@) == acts
                &&& r.1 == done
            }),
    {
        let mut actions: Vec<UiAction> = Vec::new();
        let mut exit_after = false;
        match msg {
            AgentEvent::AgentMessageDelta { delta } => {
                push_str(&mut self.answer, delta.as_str());
            },
            AgentEvent::AgentMessage { message } => {
                let mut buf = self.take_answer();
                push_str(&mut buf, message.as_str());
                actions = agent_message(&buf);
                exit_after = true;
            },
            AgentEvent::AgentReasoningDelta { delta } => {
                push_str(&mut self.reasoning, delta.as_str());
            },
            AgentEvent::AgentReasoning { text } => {
                let mut buf = self.take_reasoning();
                push_str(&mut buf, text.as_str());
                actions.push(reasoning_action(&buf));
            },
            AgentEvent::TokenCount(u) => {
                self.token_usage = u;
                actions.push(UiAction::RequestRedraw);
            },
            AgentEvent::TaskStarted => {
                actions.push(history_line(&chars_of("[task] started")));
            },
            AgentEvent::TaskComplete => {
                let a = self.take_answer();
                if a.len() > 0 {
                    actions = agent_message(&a);
                    exit_after = true;
                }
                let ghost mid = actions_view(actions@);
                let r = self.take_reasoning();
                if r.len() > 0 {
                    actions.push(reasoning_action(&r));
                }
                let ghost mid2 = actions_view(actions@);
                actions.push(history_line(&chars_of("[task] complete")));
                assert(actions_view(actions@) =~= mid2.push(line_action("[task] complete"@)));
            },
            AgentEvent::Error { message } => {
                let mut l = chars_of("[error] ");
                push_str(&mut l, message.as_str());
                actions.push(history_line(&l));
            },
            AgentEvent::ExecApprovalRequest { command, cwd, reason } => {
                let mut l = chars_of(FG_YELLOW);
                push_str(&mut l, "[approval:exec] id=");
                push_str(&mut l, id.as_str());
                push_str(&mut l, " ");
                push_debug_list(&mut l, &command);
                push_str(&mut l, " cwd=");
                push_str(&mut l, cwd.as_str());
                push_str(&mut l, " reason=");
                push_debug_opt(&mut l, &reason);
                push_str(&mut l, RESET);
                assert(l@ =~= styled(
                    FG_YELLOW@,
                    "[approval:exec] id="@ + id@ + " "@ + debug_list(command.deep_view()) + " cwd="@
                        + cwd@ + " reason="@ + debug_opt(opt_view(reason)),
                ));
                actions.push(history_line(&l));
                self.push_approval(ApprovalRequestDetails::Exec { id, command, cwd, reason });
                actions.push(UiAction::RequestRedraw);
            },
            AgentEvent::ApplyPatchApprovalRequest { file_count, reason, grant_root } => {
                let mut l = chars_of(FG_MAGENTA);
                push_str(&mut l, "[approval:patch] id=");
                push_str(&mut l, id.as_str());
                push_str(&mut l, " files=");
                push_decimal(&mut l, file_count as u64);
                push_str(&mut l, " grant_root=");
                push_debug_opt_path(&mut l, &grant_root);
                push_str(&mut l, " reason=");
                push_debug_opt(&mut l, &reason);
                push_str(&mut l, RESET);
                assert(l@ =~= styled(
                    FG_MAGENTA@,
                    "[approval:patch] id="@ + id@ + " files="@ + decimal(file_count as nat)
                        + " grant_root="@ + debug_opt_path(opt_view(grant_root)) + " reason="@
                        + debug_opt(opt_view(reason)),
                ));
                actions.push(history_line(&l));
                self.push_approval(
                    ApprovalRequestDetails::Patch { id, file_count, reason, grant_root },
                );
                actions.push(UiAction::RequestRedraw);
            },
            AgentEvent::ExecCommandBegin { command } => {
                let mut l = chars_of("[exec] ");
                push_debug_list(&mut l, &command);
                actions.push(history_line(&l));
            },
            AgentEvent::ExecCommandEnd { exit_code, stdout, stderr } => {
                let mut l = chars_of("[exec:done] exit_code=");
                push_signed(&mut l, exit_code);
                actions.push(history_line(&l));
                output_actions(&mut actions, stdout.as_str(), stderr.as_str());
            },
            AgentEvent::PatchApplyBegin { auto_approved, file_count } => {
                let mut l = chars_of("[patch] applying auto_approved=");
                push_bool(&mut l, auto_approved);
                push_str(&mut l, " files=");
                push_decimal(&mut l, file_count as u64);
                actions.push(history_line(&l));
            },
            AgentEvent::PatchApplyEnd { success, stdout, stderr } => {
                let mut l = chars_of("[patch:end] success=");
                push_bool(&mut l, success);
                actions.push(history_line(&l));
                output_actions(&mut actions, stdout.as_str(), stderr.as_str());
            },
            AgentEvent::McpToolCallBegin { server, tool, arguments_debug } => {
                let mut l = chars_of("[mcp] ");
                push_str(&mut l, server.as_str());
                push_str(&mut l, ":");
                push_str(&mut l, tool.as_str());
                push_str(&mut l, " args=");
                push_str(&mut l, arguments_debug.as_str());
                actions.push(history_line(&l));
            },
            AgentEvent::McpToolCallEnd { success, result_debug } => {
                let mut l = chars_of("[mcp:done] success=");
                push_bool(&mut l, success);
                push_str(&mut l, " result=");
                push_str(&mut l, result_debug.as_str());
                actions.push(history_line(&l));
            },
            AgentEvent::SessionConfigured { model, history_entry_count, history_log_id } => {
                let line = session_configured_line(
                    model.as_str(),
                    history_entry_count,
                    history_log_id,
                );
                let mut v: Vec<String> = Vec::new();
                v.push(line);
                assert(v.deep_view() =~= seq![session_line(
                    model@,
                    history_entry_count as nat,
                    history_log_id as nat,
                )]);
                actions.push(UiAction::History(v));
            },
            AgentEvent::GetHistoryEntryResponse => {},
            AgentEvent::BackgroundEvent { message } => {
                let mut l = chars_of("[background] ");
                push_str(&mut l, message.as_str());
                actions.push(history_line(&l));
            },
            AgentEvent::Other { debug } => {
                let mut l = chars_of("[event] ");
                push_str(&mut l, debug.as_str());
                actions.push(history_line(&l));
            },
        }
        assert(actions_view(actions@) =~= agent_step(old(self)@, id@, msg).1);
        (actions, exit_after)
    }

    /// Handles one key press; `composer_empty` tells whether the composer
    /// holds any text.
    pub fn handle_key(&mut self, key: KeyInput, composer_empty: bool) -> (r: KeyOutcome)
        ensures
            ({
                let (s2, k) = key_step(old(self)@, key, composer_empty);
                &&& final(self)@ == s2
                &&& r.spec_view() == k
            }),
    {
        let ctrl_c = key.ctrl && key.ch == Some('c');
        let ctrl_d = key.ctrl && key.ch == Some('d');
        if ctrl_c {
            if self.ctrl_c_first {
                return KeyOutcome::Quit;
            } else {
                self.ctrl_c_first = true;
                return KeyOutcome::Redraw;
            }
        } else if ctrl_d {
            if composer_empty {
                return KeyOutcome::Quit;
            }
        } else {
            self.ctrl_c_first = false;
        }
        if composer_empty && self.approvals.len() > 0 {
            match key.ch {
                Some(c) => {
                    let decision = if c == 'y' || c == 'Y' {
                        Some(ReviewDecision::Approved)
                    } else if c == 'n' || c == 'N' {
                        Some(ReviewDecision::Denied)
                    } else {
                        None
                    };
                    match decision {
                        Some(d) => {
                            let ghost before = self@;
                            let first = self.approvals.remove(0);
                            assert(self@.approvals =~= before.approvals.drop_first());
                            let mut l = chars_of("[approval] ");
                            let op = match first {
                                ApprovalRequestDetails::Exec { id, .. } => {
                                    push_str(&mut l, "exec");
                                    push_str(&mut l, " ");
                                    push_str(&mut l, id.as_str());
                                    Op::ExecApproval { id, decision: d }
                                },
                                ApprovalRequestDetails::Patch { id, .. } => {
                                    push_str(&mut l, "patch");
                                    push_str(&mut l, " ");
                                    push_str(&mut l, id.as_str());
                                    Op::PatchApproval { id, decision: d }
                                },
                            };
                            push_str(&mut l, " -> ");
                            match d {
                                ReviewDecision::Approved => push_str(&mut l, "Approved"),
                                ReviewDecision::Denied => push_str(&mut l, "Denied"),
                            }
                            return KeyOutcome::Decided { op, line: text_of(&l) };
                        },
                        None => {},
                    }
                },
                None => {},
            }
        }
        KeyOutcome::ToComposer
    }
}


// ---------------------------------------------------------------------------
// The scripted agent.
// ---------------------------------------------------------------------------

/// An event of the scripted agent, as plain values.
pub ghost enum ScriptedEvent {
    Session,
    ReasoningDelta(Seq<char>),
    Reasoning(Seq<char>),
    MessageDelta(Seq<char>),
    Message(Seq<char>),
    TaskComplete,
}

/// `ev` is the scripted event `e`.
pub open spec fn is_scripted(ev: AgentEvent, e: ScriptedEvent) -> bool {
    match (ev, e) {
        (
            AgentEvent::SessionConfigured { model, history_entry_count, history_log_id },
            ScriptedEvent::Session,
        ) => model@ == "fake-model"@ && history_entry_count == 0 && history_log_id == 1,
        (AgentEvent::AgentReasoningDelta { delta }, ScriptedEvent::ReasoningDelta(t)) => delta@
            == t,
        (AgentEvent::AgentReasoning { text }, ScriptedEvent::Reasoning(t)) => text@ == t,
        (AgentEvent::AgentMessageDelta { delta }, ScriptedEvent::MessageDelta(t)) => delta@ == t,
        (AgentEvent::AgentMessage { message }, ScriptedEvent::Message(t)) => message@ == t,
        (AgentEvent::TaskComplete, ScriptedEvent::TaskComplete) => true,
        _ => false,
    }
}

/// The reply of turn `i`, streamed then final: "Hello " and "world" for the
/// default single turn, else "Turn i " and "response".
pub open spec fn scripted_reply(i: nat, default_reply: bool) -> (Seq<char>, Seq<char>) {
    if default_reply {
        ("Hello "@, "world"@)
    } else {
        ("Turn "@ + decimal(i) + " "@, "response"@)
    }
}

/// Turn `i`: a reasoning delta, the reasoning (unless finals are omitted), a
/// message delta, and the message (unless omitted), all with id `t<i>`.
pub open spec fn scripted_turn(i: nat, omit_final: bool, default_reply: bool) -> Seq<
    (Seq<char>, ScriptedEvent),
> {
    let id = "t"@ + decimal(i);
    seq![(id, ScriptedEvent::ReasoningDelta("thinking "@ + decimal(i) + " "@))] + (if omit_final {
        Seq::empty()
    } else {
        seq![(id, ScriptedEvent::Reasoning("done "@ + decimal(i)))]
    }) + seq![(id, ScriptedEvent::MessageDelta(scripted_reply(i, default_reply).0))] + (
    if omit_final {
        Seq::empty()
    } else {
        seq![(id, ScriptedEvent::Message(scripted_reply(i, default_reply).1))]
    })
}

/// Turns 1 to `n`, in order.
pub open spec fn scripted_turns(n: nat, omit_final: bool, default_reply: bool) -> Seq<
    (Seq<char>, ScriptedEvent),
>
    decreases n,
{
    if n == 0 {
        Seq::empty()
    } else {
        scripted_turns((n - 1) as nat, omit_final, default_reply) + scripted_turn(
            n,
            omit_final,
            default_reply,
        )
    }
}

/// The whole script: the session, the turns, then task completion. Without
/// a turn count it is one turn whose reply is "Hello world"; with a count
/// `n` it is turns 1 to `n`, replying "Turn i response".
pub open spec fn scripted_session(turns: Option<usize>, omit_final: bool) -> Seq<
    (Seq<char>, ScriptedEvent),
> {
    let (n, default_reply) = match turns {
        Some(n) => (n as nat, false),
        None => (1nat, true),
    };
    seq![("sess"@, ScriptedEvent::Session)] + scripted_turns(n, omit_final, default_reply) + seq![
        ("sess"@, ScriptedEvent::TaskComplete),
    ]
}

/// `evs` are the scripted events `expected`, one for one.
pub open spec fn script_matches(
    evs: Seq<(String, AgentEvent)>,
    expected: Seq<(Seq<char>, ScriptedEvent)>,
) -> bool {
    &&& evs.len() == expected.len()
    &&& forall|i: int|
        0 <= i < evs.len() ==> #[trigger] evs[i].0@ == expected[i].0 && is_scripted(
            evs[i].1,
            expected[i].1,
        )
}

fn scripted(v: &mut Vec<(String, AgentEvent)>, id: &Vec<char>, ev: AgentEvent, Ghost(e): Ghost<
    ScriptedEvent,
>, Ghost(expected): Ghost<Seq<(Seq<char>, ScriptedEvent)>>)
    requires
        script_matches(old(v)@, expected),
        is_scripted(ev, e),
    ensures
        script_matches(final(v)@, expected.push((id@, e))),
{
    v.push((string_of(id), ev));
    let ghost exp = expected.push((id@, e));
    assert forall|i: int| 0 <= i < v@.len() implies #[trigger] v@[i].0@ == exp[i].0 && is_scripted(
        v@[i].1,
        exp[i].1,
    ) by {
        if i < old(v)@.len() {
            assert(v@[i] == old(v)@[i]);
        }
    }
}

/// The events of the scripted agent: one turn replying "Hello world"
/// without a turn count, else `turns` turns; with `omit_final` the final
/// reasoning and message events are left out, so that only the deltas and
/// the task completion carry the text.
pub fn fake_agent_script(turns: Option<usize>, omit_final: bool) -> (r: Vec<(String, AgentEvent)>)
    ensures
        script_matches(r@, scripted_session(turns, omit_final)),
{
    let ghost turns_arg = turns;
    let (turns, default_reply) = match turns {
        Some(n) => (n, false),
        None => (1usize, true),
    };
    let mut v: Vec<(String, AgentEvent)> = Vec::new();
    let sess = chars_of("sess");
    let session = AgentEvent::SessionConfigured {
        model: string_of(&chars_of("fake-model")),
        history_entry_count: 0,
        history_log_id: 1,
    };
    assert(script_matches(v@, Seq::empty()));
    scripted(&mut v, &sess, session, Ghost(ScriptedEvent::Session), Ghost(Seq::empty()));
    let ghost head = seq![("sess"@, ScriptedEvent::Session)];
    assert(Seq::<(Seq<char>, ScriptedEvent)>::empty().push(("sess"@, ScriptedEvent::Session))
        =~= head);
    let mut k: usize = 0;
    while k < turns
        invariant
            k <= turns,
            script_matches(v@, head + scripted_turns(k as nat, omit_final, default_reply)),
        decreases turns - k,
    {
        let i = k + 1;
        let ghost before = head + scripted_turns(k as nat, omit_final, default_reply);
        let mut id = chars_of("t");
        push_decimal(&mut id, i as u64);
        let mut t = chars_of("thinking ");
        push_decimal(&mut t, i as u64);
        push_str(&mut t, " ");
        scripted(
            &mut v,
            &id,
            AgentEvent::AgentReasoningDelta { delta: string_of(&t) },
            Ghost(ScriptedEvent::ReasoningDelta(t@)),
            Ghost(before),
        );
        let ghost e1 = before.push((id@, ScriptedEvent::ReasoningDelta(t@)));
        let ghost e2 = if omit_final {
            e1
        } else {
            e1.push((id@, ScriptedEvent::Reasoning("done "@ + decimal(i as nat))))
        };
        if !omit_final {
            let mut d = chars_of("done ");
            push_decimal(&mut d, i as u64);
            scripted(
                &mut v,
                &id,
                AgentEvent::AgentReasoning { text: string_of(&d) },
                Ghost(ScriptedEvent::Reasoning(d@)),
                Ghost(e1),
            );
        }
        let mut m: Vec<char>;
        if default_reply {
            m = chars_of("Hello ");
        } else {
            m = chars_of("Turn ");
            push_decimal(&mut m, i as u64);
            push_str(&mut m, " ");
        }
        scripted(
            &mut v,
            &id,
            AgentEvent::AgentMessageDelta { delta: string_of(&m) },
            Ghost(ScriptedEvent::MessageDelta(m@)),
            Ghost(e2),
        );
        let ghost e3 = e2.push((id@, ScriptedEvent::MessageDelta(m@)));
        if !omit_final {
            let r = if default_reply { chars_of("world") } else { chars_of("response") };
            scripted(
                &mut v,
                &id,
                AgentEvent::AgentMessage { message: string_of(&r) },
                Ghost(ScriptedEvent::Message(r@)),
                Ghost(e3),
            );
        }
        assert(scripted_turns(i as nat, omit_final, default_reply) == scripted_turns(
            k as nat,
            omit_final,
            default_reply,
        )
            + scripted_turn(i as nat, omit_final, default_reply));
        assert(head + scripted_turns(i as nat, omit_final, default_reply) =~= if omit_final {
            e3
        } else {
            e3.push((id@, ScriptedEvent::Message(scripted_reply(i as nat, default_reply).1)))
        });
        k = i;
    }
    scripted(
        &mut v,
        &sess,
        AgentEvent::TaskComplete,
        Ghost(ScriptedEvent::TaskComplete),
        Ghost(head + scripted_turns(turns as nat, omit_final, default_reply)),
    );
    assert(scripted_session(turns_arg, omit_final) =~= (head + scripted_turns(
        turns as nat,
        omit_final,
        default_reply,
    )).push(("sess"@, ScriptedEvent::TaskComplete)));
    v
}

} // verus!
