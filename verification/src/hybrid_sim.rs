//! A pure model of the append-only terminal: history lines are printed once
//! and never touched again, while a small bottom pane (composer box and status
//! line) is redrawn in place.
//!
//! Assistant and reasoning deltas are buffered until their final event, which
//! appends exactly one history line; approval requests queue up and each
//! decision answers the oldest one; token usage only shows in the bottom pane.
use vstd::prelude::*;

use crate::text::{
    bool_text, chars_from, chars_of, debug_list, decimal, has_prefix, lines, lines_of, push_bool,
    push_chars, push_debug_list, push_decimal, push_repeat, push_str, repeat_char, same_chars, starts_with,
    string_of, strings_of, strip_prefix_or_self, texts,
};

verus! {

/// One input to the simulation.
#[derive(Debug, Clone)]
pub enum SimEvent {
    UserInput(String),
    AssistantDelta(String),
    AssistantFinal(String),
    ReasoningDelta(String),
    ReasoningFinal(String),
    ApprovalRequestExec { id: String, command: Vec<String> },
    ApprovalRequestPatch { id: String, file_count: usize },
    /// Approves the oldest pending request.
    ApprovalDecisionYes,
    /// Denies the oldest pending request.
    ApprovalDecisionNo,
    TokenUsage { input: u32, output: u32, total: u32 },
    ComposerInsert(String),
    ComposerSubmit,
    SetWidth(usize),
    PatchApplyBegin { id: String, file_count: usize, auto: bool },
    PatchApplyEnd { id: String, success: bool, stdout: String, stderr: String },
    AppendBlock { header: String, body: String },
    /// An assistant line printed the way the faulty renderer printed it:
    /// inside the bottom pane, so that the next redraw wipes it out.
    BuggyAssistantFinal(String),
    TaskComplete,
    RedrawBottom,
}

/// A request waiting for a decision.
#[derive(Debug)]
enum ApprovalRequest {
    Exec { id: Vec<char>, command: Vec<String> },
    Patch { id: Vec<char>, file_count: usize },
}

/// The simulated terminal.
#[derive(Debug)]
pub struct Simulation {
    history: Vec<Vec<char>>,
    bottom: Vec<Vec<char>>,
    answer_buf: Vec<char>,
    reasoning_buf: Vec<char>,
    pending_approvals: Vec<ApprovalRequest>,
    answered_turns: Vec<Vec<char>>,
    reasoning_turns: Vec<Vec<char>>,
    token_usage: (u32, u32, u32),
    composer_content: Vec<char>,
    width: usize,
}

/// What a pending request is, as plain values.
pub ghost enum PendingApproval {
    Exec { id: Seq<char>, command: Seq<Seq<char>> },
    Patch { id: Seq<char>, file_count: nat },
}

/// The state of a `Simulation`.
pub ghost struct SimState {
    /// Lines printed to the scrollback, oldest first.
    pub history: Seq<Seq<char>>,
    /// The bottom pane as last drawn.
    pub bottom: Seq<Seq<char>>,
    pub answer_buf: Seq<char>,
    pub reasoning_buf: Seq<char>,
    /// Pending approval requests, oldest first.
    pub pending: Seq<PendingApproval>,
    /// Every assistant turn that has been printed, in order.
    pub answered_turns: Seq<Seq<char>>,
    /// Every reasoning turn that has been printed, in order.
    pub reasoning_turns: Seq<Seq<char>>,
    pub token_usage: (u32, u32, u32),
    pub composer: Seq<char>,
    pub width: nat,
}

impl ApprovalRequest {
    closed spec fn spec_view(self) -> PendingApproval {
        match self {
            ApprovalRequest::Exec { id, command } => PendingApproval::Exec {
                id: id@,
                command: command.deep_view(),
            },
            ApprovalRequest::Patch { id, file_count } => PendingApproval::Patch {
                id: id@,
                file_count: file_count as nat,
            },
        }
    }
}

impl View for Simulation {
    type V = SimState;

    closed spec fn view(&self) -> SimState {
        SimState {
            history: texts(self.history@),
            bottom: texts(self.bottom@),
            answer_buf: self.answer_buf@,
            reasoning_buf: self.reasoning_buf@,
            pending: self.pending_approvals@.map_values(|r: ApprovalRequest| r.spec_view()),
            answered_turns: texts(self.answered_turns@),
            reasoning_turns: texts(self.reasoning_turns@),
            token_usage: self.token_usage,
            composer: self.composer_content@,
            width: self.width as nat,
        }
    }
}

// ---------------------------------------------------------------------------
// The model: what each event does.
// ---------------------------------------------------------------------------

/// The state of a fresh simulation, whose pane is `width` columns wide.
pub open spec fn empty_state(width: nat) -> SimState {
    SimState {
        history: Seq::empty(),
        bottom: Seq::empty(),
        answer_buf: Seq::empty(),
        reasoning_buf: Seq::empty(),
        pending: Seq::empty(),
        answered_turns: Seq::empty(),
        reasoning_turns: Seq::empty(),
        token_usage: (0, 0, 0),
        composer: Seq::empty(),
        width,
    }
}

/// `s` with `line` appended to the history.
pub open spec fn with_line(s: SimState, line: Seq<char>) -> SimState {
    SimState { history: s.history.push(line), ..s }
}

/// `s` with `lines` appended to the history, in order.
pub open spec fn with_lines(s: SimState, lines: Seq<Seq<char>>) -> SimState {
    SimState { history: s.history + lines, ..s }
}

/// Prints the answer buffer as one assistant line and empties it.
pub open spec fn flush_answer(s: SimState) -> SimState {
    SimState {
        history: s.history.push("assistant: "@ + s.answer_buf),
        answer_buf: Seq::empty(),
        answered_turns: s.answered_turns.push(s.answer_buf),
        ..s
    }
}

/// Prints the reasoning buffer as one reasoning line and empties it.
pub open spec fn flush_reasoning(s: SimState) -> SimState {
    SimState {
        history: s.history.push("<reasoning> "@ + s.reasoning_buf),
        reasoning_buf: Seq::empty(),
        reasoning_turns: s.reasoning_turns.push(s.reasoning_buf),
        ..s
    }
}

/// A header line followed by the lines of `body`.
pub open spec fn block_lines(header: Seq<char>, body: Seq<char>) -> Seq<Seq<char>> {
    seq![header] + lines_of(body)
}

pub open spec fn exec_request_line(id: Seq<char>, command: Seq<Seq<char>>) -> Seq<char> {
    "[approval:exec] id="@ + id + " cmd="@ + debug_list(command)
}

pub open spec fn patch_request_line(id: Seq<char>, file_count: nat) -> Seq<char> {
    "[approval:patch] id="@ + id + " files="@ + decimal(file_count)
}

/// The history line that answers request `req`.
pub open spec fn decision_line(req: PendingApproval, approved: bool) -> Seq<char> {
    let (kind, id) = match req {
        PendingApproval::Exec { id, .. } => ("exec"@, id),
        PendingApproval::Patch { id, .. } => ("patch"@, id),
    };
    "[approval] "@ + kind + " "@ + id + " -> "@ + (if approved {
        "Approved"@
    } else {
        "Denied"@
    })
}

/// Answers the oldest pending request; nothing happens when none is pending.
pub open spec fn decide(s: SimState, approved: bool) -> SimState {
    if s.pending.len() > 0 {
        SimState {
            history: s.history.push(decision_line(s.pending[0], approved)),
            pending: s.pending.drop_first(),
            ..s
        }
    } else {
        s
    }
}

pub open spec fn patch_begin_line(id: Seq<char>, file_count: nat, auto: bool) -> Seq<char> {
    "[patch] applying id="@ + id + " files="@ + decimal(file_count) + " auto_approved="@
        + bool_text(auto)
}

pub open spec fn patch_end_line(id: Seq<char>, success: bool) -> Seq<char> {
    "[patch:end] id="@ + id + " success="@ + bool_text(success)
}

/// The lines printed when a patch finishes: a summary, then the non-empty
/// outputs as blocks.
pub open spec fn patch_end_lines(
    id: Seq<char>,
    success: bool,
    stdout: Seq<char>,
    stderr: Seq<char>,
) -> Seq<Seq<char>> {
    seq![patch_end_line(id, success)] + (if stdout.len() > 0 {
        block_lines("[stdout]"@, stdout)
    } else {
        Seq::empty()
    }) + (if stderr.len() > 0 {
        block_lines("[stderr]"@, stderr)
    } else {
        Seq::empty()
    })
}

/// Flushes what is buffered and marks the task complete.
pub open spec fn complete_task(s: SimState) -> SimState {
    let s1 = if s.answer_buf.len() > 0 {
        flush_answer(s)
    } else {
        s
    };
    let s2 = if s1.reasoning_buf.len() > 0 {
        flush_reasoning(s1)
    } else {
        s1
    };
    with_line(s2, "[task] complete"@)
}

/// `width - 2`, or 0 when narrower.
pub open spec fn inner_width(width: nat) -> nat {
    if width >= 2 {
        (width - 2) as nat
    } else {
        0
    }
}

/// Reading the composer text `p` from the left: the rows completed so far
/// (a row is complete once it holds `w` characters, or one character when
/// `w` is 0), and the characters of the row still open.
pub open spec fn scan_wrap(p: Seq<char>, w: nat) -> (Seq<Seq<char>>, Seq<char>)
    decreases p.len(),
{
    if p.len() == 0 {
        (Seq::empty(), Seq::empty())
    } else {
        let (done, cur) = scan_wrap(p.drop_last(), w);
        let row = cur.push(p.last());
        if row.len() >= w {
            (done.push(row), Seq::empty())
        } else {
            (done, row)
        }
    }
}

/// The rows of the composer box: one empty row for an empty composer.
pub open spec fn wrap_rows(text: Seq<char>, w: nat) -> Seq<Seq<char>> {
    if text.len() == 0 {
        seq![Seq::empty()]
    } else {
        let (done, cur) = scan_wrap(text, w);
        if cur.len() > 0 {
            done.push(cur)
        } else {
            done
        }
    }
}

pub open spec fn min_nat(a: nat, b: nat) -> nat {
    if a <= b {
        a
    } else {
        b
    }
}

/// `s` cut to `width` characters, then filled with spaces to `width`.
pub open spec fn pad_text(s: Seq<char>, width: nat) -> Seq<char> {
    let k = min_nat(s.len(), width);
    s.take(k as int) + repeat_char(' ', (width - k) as nat)
}

pub open spec fn box_top(w: nat) -> Seq<char> {
    "┌"@ + repeat_char('─', w) + "┐"@
}

pub open spec fn box_bottom(w: nat) -> Seq<char> {
    "└"@ + repeat_char('─', w) + "┘"@
}

pub open spec fn box_row(line: Seq<char>, w: nat) -> Seq<char> {
    "│"@ + pad_text(line, w) + "│"@
}

pub open spec fn status_line(s: SimState) -> Seq<char> {
    "tok in:"@ + decimal(s.token_usage.0 as nat) + " out:"@ + decimal(s.token_usage.1 as nat)
        + " total:"@ + decimal(s.token_usage.2 as nat) + " approvals:"@ + decimal(s.pending.len())
}

/// The bottom pane for state `s`: the boxed composer rows, then the status.
pub open spec fn render_bottom(s: SimState) -> Seq<Seq<char>> {
    let w = inner_width(s.width);
    seq![box_top(w)] + wrap_rows(s.composer, w).map_values(|l: Seq<char>| box_row(l, w)) + seq![
        box_bottom(w),
        status_line(s),
    ]
}

/// The effect of one event on the state.
pub open spec fn step(s: SimState, ev: SimEvent) -> SimState {
    match ev {
        SimEvent::UserInput(t) => with_line(s, "you: "@ + t@),
        SimEvent::AssistantDelta(d) => SimState { answer_buf: s.answer_buf + d@, ..s },
        SimEvent::AssistantFinal(m) => flush_answer(SimState { answer_buf: s.answer_buf + m@, ..s }),
        SimEvent::ReasoningDelta(d) => SimState { reasoning_buf: s.reasoning_buf + d@, ..s },
        SimEvent::ReasoningFinal(t) => flush_reasoning(
            SimState { reasoning_buf: s.reasoning_buf + t@, ..s },
        ),
        SimEvent::ApprovalRequestExec { id, command } => SimState {
            history: s.history.push(exec_request_line(id@, command.deep_view())),
            pending: s.pending.push(PendingApproval::Exec { id: id@, command: command.deep_view() }),
            ..s
        },
        SimEvent::ApprovalRequestPatch { id, file_count } => SimState {
            history: s.history.push(patch_request_line(id@, file_count as nat)),
            pending: s.pending.push(PendingApproval::Patch { id: id@, file_count: file_count as nat }),
            ..s
        },
        SimEvent::ApprovalDecisionYes => decide(s, true),
        SimEvent::ApprovalDecisionNo => decide(s, false),
        SimEvent::TokenUsage { input, output, total } => SimState {
            token_usage: (input, output, total),
            ..s
        },
        SimEvent::ComposerInsert(t) => SimState { composer: s.composer + t@, ..s },
        SimEvent::ComposerSubmit => if s.composer.len() > 0 {
            SimState { history: s.history.push("you: "@ + s.composer), composer: Seq::empty(), ..s }
        } else {
            s
        },
        SimEvent::SetWidth(w) => SimState { width: if w >= 4 { w as nat } else { 4 }, ..s },
        SimEvent::PatchApplyBegin { id, file_count, auto } => with_line(
            s,
            patch_begin_line(id@, file_count as nat, auto),
        ),
        SimEvent::PatchApplyEnd { id, success, stdout, stderr } => with_lines(
            s,
            patch_end_lines(id@, success, stdout@, stderr@),
        ),
        SimEvent::AppendBlock { header, body } => with_lines(s, block_lines(header@, body@)),
        SimEvent::BuggyAssistantFinal(t) => SimState {
            bottom: s.bottom.push("assistant(ephemeral): "@ + t@),
            ..s
        },
        SimEvent::TaskComplete => complete_task(s),
        SimEvent::RedrawBottom => SimState { bottom: render_bottom(s), ..s },
    }
}

/// The state after the events `evs`, one after the other, from `s`.
pub open spec fn run(s: SimState, evs: Seq<SimEvent>) -> SimState
    decreases evs.len(),
{
    if evs.len() == 0 {
        s
    } else {
        step(run(s, evs.drop_last()), evs.last())
    }
}

/// The transcript: the history, a marker, then the bottom pane.
pub open spec fn transcript(s: SimState) -> Seq<Seq<char>> {
    s.history + seq!["--BOTTOM--"@] + s.bottom
}


// ---------------------------------------------------------------------------
// The consistency report.
// ---------------------------------------------------------------------------

/// The lines of `h` that begin with `p`, in order.
pub open spec fn lines_with_prefix(h: Seq<Seq<char>>, p: Seq<char>) -> Seq<Seq<char>>
    decreases h.len(),
{
    if h.len() == 0 {
        Seq::empty()
    } else {
        let r = lines_with_prefix(h.drop_last(), p);
        if starts_with(h.last(), p) {
            r.push(h.last())
        } else {
            r
        }
    }
}

/// The first index from `from` on, within both sequences, at which a printed
/// line without `prefix` differs from the recorded payload.
pub open spec fn first_mismatch(
    expected: Seq<Seq<char>>,
    printed: Seq<Seq<char>>,
    prefix: Seq<char>,
    from: nat,
) -> Option<nat>
    decreases expected.len() - from,
{
    if from >= expected.len() || from >= printed.len() {
        None
    } else if strip_prefix_or_self(printed[from as int], prefix) != expected[from as int] {
        Some(from)
    } else {
        first_mismatch(expected, printed, prefix, from + 1)
    }
}

/// A line that belongs to the bottom pane or the transcript marker.
pub open spec fn is_artefact(l: Seq<char>) -> bool {
    starts_with(l, "┌"@) || l == "--BOTTOM--"@
}

pub open spec fn is_output_header(l: Seq<char>) -> bool {
    l == "[stdout]"@ || l == "[stderr]"@
}

/// Line `i` of `h` is an output header with no content line after it.
pub open spec fn header_unfollowed(h: Seq<Seq<char>>, i: int) -> bool {
    is_output_header(h[i]) && (i + 1 >= h.len() || starts_with(h[i + 1], "["@))
}

pub open spec fn mismatch_message(
    kind: Seq<char>,
    i: nat,
    expected: Seq<char>,
    got: Seq<char>,
) -> Seq<char> {
    kind + " turn "@ + decimal(i) + " payload mismatch expected='"@ + expected + "' got='"@ + got
        + "'"@
}

/// What `assert_invariants` reports for state `s`: the first violated
/// property, or `Ok` when all hold.
pub open spec fn invariant_report(s: SimState) -> Result<(), Seq<char>> {
    let pa = lines_with_prefix(s.history, "assistant:"@);
    let pr = lines_with_prefix(s.history, "<reasoning> "@);
    if pa.len() != s.answered_turns.len() {
        Err(
            "assistant turn count mismatch printed="@ + decimal(pa.len()) + " recorded="@ + decimal(
                s.answered_turns.len(),
            ),
        )
    } else if first_mismatch(s.answered_turns, pa, "assistant: "@, 0) is Some {
        let i = first_mismatch(s.answered_turns, pa, "assistant: "@, 0)->0;
        Err(
            mismatch_message(
                "assistant"@,
                i,
                s.answered_turns[i as int],
                strip_prefix_or_self(pa[i as int], "assistant: "@),
            ),
        )
    } else if pr.len() != s.reasoning_turns.len() {
        Err("reasoning turn count mismatch"@)
    } else if first_mismatch(s.reasoning_turns, pr, "<reasoning> "@, 0) is Some {
        let i = first_mismatch(s.reasoning_turns, pr, "<reasoning> "@, 0)->0;
        Err(
            mismatch_message(
                "reasoning"@,
                i,
                s.reasoning_turns[i as int],
                strip_prefix_or_self(pr[i as int], "<reasoning> "@),
            ),
        )
    } else if exists|i: int| 0 <= i < s.history.len() && is_artefact(#[trigger] s.history[i]) {
        Err("bottom artefacts leaked into history"@)
    } else if exists|i: int| 0 <= i < s.history.len() && #[trigger] header_unfollowed(s.history, i) {
        Err("stdout/stderr header not followed by content"@)
    } else {
        Ok(())
    }
}

/// `r` is the report `e`, the message taken as text.
pub open spec fn report_matches(r: Result<(), String>, e: Result<(), Seq<char>>) -> bool {
    match (r, e) {
        (Ok(_), Ok(_)) => true,
        (Err(m), Err(t)) => m@ == t,
        _ => false,
    }
}

// ---------------------------------------------------------------------------
// Executable code.
// ---------------------------------------------------------------------------

/// Spaces up to `width` after the first `width` characters of `s`.
fn pad_to_width(s: &Vec<char>, width: usize) -> (out: Vec<char>)
    ensures
        out@ == pad_text(s@, width as nat),
{
    let mut out: Vec<char> = Vec::new();
    let mut count: usize = 0;
    while count < s.len() && count < width
        invariant
            count <= s.len(),
            count <= width,
            out@ == s@.take(count as int),
        decreases width - count,
    {
        out.push(s[count]);
        count = count + 1;
        assert(s@.take(count as int) == s@.take(count - 1).push(s@[count - 1]));
    }
    if count < width {
        push_repeat(&mut out, ' ', width - count);
    } else {
        assert(repeat_char(' ', 0) =~= Seq::<char>::empty());
    }
    out
}

impl Default for Simulation {
    fn default() -> (s: Self)
        ensures
            s@ == empty_state(0),
    {
        let s = Simulation {
            history: Vec::new(),
            bottom: Vec::new(),
            answer_buf: Vec::new(),
            reasoning_buf: Vec::new(),
            pending_approvals: Vec::new(),
            answered_turns: Vec::new(),
            reasoning_turns: Vec::new(),
            token_usage: (0, 0, 0),
            composer_content: Vec::new(),
            width: 0,
        };
        assert(s@.history =~= Seq::<Seq<char>>::empty());
        assert(s@.bottom =~= Seq::<Seq<char>>::empty());
        assert(s@.pending =~= Seq::<PendingApproval>::empty());
        assert(s@.answered_turns =~= Seq::<Seq<char>>::empty());
        assert(s@.reasoning_turns =~= Seq::<Seq<char>>::empty());
        s
    }
}

impl Simulation {
    /// A fresh simulation, 40 columns wide.
    pub fn new() -> (s: Self)
        ensures
            s@ == empty_state(40),
    {
        let mut s = Self::default();
        s.width = 40;
        s
    }

    /// Feeds one event to the simulation.
    pub fn apply(&mut self, ev: SimEvent)
        ensures
            final(self)@ == step(old(self)@, ev),
    {
        self.apply_internal(ev);
    }

    fn push_history(&mut self, line: Vec<char>)
        ensures
            final(self)@ == with_line(old(self)@, line@),
    {
        self.history.push(line);
        assert(final(self)@.history =~= old(self)@.history.push(line@));
    }

    fn push_history_lines(&mut self, lines: Vec<Vec<char>>)
        ensures
            final(self)@ == with_lines(old(self)@, texts(lines@)),
    {
        let ghost start = self@;
        for i in 0..lines.len()
            invariant
                self@ == with_lines(start, texts(lines@).take(i as int)),
        {
            let l = lines[i].clone();
            self.push_history(l);
            assert(texts(lines@).take(i + 1) =~= texts(lines@).take(i as int).push(lines@[i as int]@));
        }
        assert(texts(lines@).take(lines.len() as int) =~= texts(lines@));
    }

    fn append_block(&mut self, header: Vec<char>, body: &Vec<char>)
        ensures
            final(self)@ == with_lines(old(self)@, block_lines(header@, body@)),
    {
        let ghost start = self@;
        self.push_history(header);
        let ls = lines(body);
        self.push_history_lines(ls);
        assert(self@.history =~= start.history + block_lines(header@, body@));
    }

    fn flush_answer(&mut self)
        ensures
            final(self)@ == flush_answer(old(self)@),
    {
        let mut out: Vec<char> = Vec::new();
        std::mem::swap(&mut out, &mut self.answer_buf);
        let mut line = chars_of("assistant: ");
        push_chars(&mut line, &out);
        self.answered_turns.push(out);
        self.push_history(line);
        assert(self@.answered_turns =~= old(self)@.answered_turns.push(old(self)@.answer_buf));
        assert(self@.answer_buf =~= Seq::<char>::empty());
    }

    fn flush_reasoning(&mut self)
        ensures
            final(self)@ == flush_reasoning(old(self)@),
    {
        let mut out: Vec<char> = Vec::new();
        std::mem::swap(&mut out, &mut self.reasoning_buf);
        let mut line = chars_of("<reasoning> ");
        push_chars(&mut line, &out);
        self.reasoning_turns.push(out);
        self.push_history(line);
        assert(self@.reasoning_turns =~= old(self)@.reasoning_turns.push(old(self)@.reasoning_buf));
        assert(self@.reasoning_buf =~= Seq::<char>::empty());
    }

    fn decide(&mut self, approved: bool)
        ensures
            final(self)@ == decide(old(self)@, approved),
    {
        if self.pending_approvals.len() > 0 {
            let req = self.pending_approvals.remove(0);
            let mut line = chars_of("[approval] ");
            match &req {
                ApprovalRequest::Exec { id, .. } => {
                    push_str(&mut line, "exec");
                    push_str(&mut line, " ");
                    push_chars(&mut line, id);
                },
                ApprovalRequest::Patch { id, .. } => {
                    push_str(&mut line, "patch");
                    push_str(&mut line, " ");
                    push_chars(&mut line, id);
                },
            }
            push_str(&mut line, " -> ");
            if approved {
                push_str(&mut line, "Approved");
            } else {
                push_str(&mut line, "Denied");
            }
            assert(line@ == decision_line(req.spec_view(), approved));
            assert(self.pending_approvals@.map_values(|r: ApprovalRequest| r.spec_view())
                =~= old(self)@.pending.drop_first());
            self.push_history(line);
        }
    }

    fn request_exec(&mut self, id: String, command: Vec<String>)
        ensures
            final(self)@ == step(old(self)@, SimEvent::ApprovalRequestExec { id, command }),
    {
        let mut line = chars_of("[approval:exec] id=");
        let idc = chars_of(id.as_str());
        push_chars(&mut line, &idc);
        push_str(&mut line, " cmd=");
        push_debug_list(&mut line, &command);
        let req = ApprovalRequest::Exec { id: idc, command };
        let ghost before = self@;
        self.pending_approvals.push(req);
        assert(self@.pending =~= before.pending.push(req.spec_view()));
        self.push_history(line);
    }

    fn request_patch(&mut self, id: String, file_count: usize)
        ensures
            final(self)@ == step(old(self)@, SimEvent::ApprovalRequestPatch { id, file_count }),
    {
        let mut line = chars_of("[approval:patch] id=");
        let idc = chars_of(id.as_str());
        push_chars(&mut line, &idc);
        push_str(&mut line, " files=");
        push_decimal(&mut line, file_count as u64);
        let req = ApprovalRequest::Patch { id: idc, file_count };
        let ghost before = self@;
        self.pending_approvals.push(req);
        assert(self@.pending =~= before.pending.push(req.spec_view()));
        self.push_history(line);
    }

    fn patch_end(&mut self, id: String, success: bool, stdout: String, stderr: String)
        ensures
            final(self)@ == with_lines(old(self)@, patch_end_lines(id@, success, stdout@, stderr@)),
    {
        let mut line = chars_of("[patch:end] id=");
        push_str(&mut line, id.as_str());
        push_str(&mut line, " success=");
        push_bool(&mut line, success);
        self.push_history(line);
        let out = chars_of(stdout.as_str());
        let err = chars_of(stderr.as_str());
        if out.len() > 0 {
            self.append_block(chars_of("[stdout]"), &out);
        }
        if err.len() > 0 {
            self.append_block(chars_of("[stderr]"), &err);
        }
        assert(self@.history =~= old(self)@.history + patch_end_lines(id@, success, stdout@, stderr@));
    }

    fn complete_task(&mut self)
        ensures
            final(self)@ == complete_task(old(self)@),
    {
        if self.answer_buf.len() > 0 {
            self.flush_answer();
        }
        if self.reasoning_buf.len() > 0 {
            self.flush_reasoning();
        }
        self.push_history(chars_of("[task] complete"));
    }

    fn apply_internal(&mut self, ev: SimEvent)
        ensures
            final(self)@ == step(old(self)@, ev),
    {
        match ev {
            SimEvent::UserInput(t) => {
                let mut line = chars_of("you: ");
                push_str(&mut line, t.as_str());
                self.push_history(line);
            },
            SimEvent::AssistantDelta(d) => {
                push_str(&mut self.answer_buf, d.as_str());
            },
            SimEvent::AssistantFinal(msg) => {
                push_str(&mut self.answer_buf, msg.as_str());
                self.flush_answer();
            },
            SimEvent::ReasoningDelta(d) => {
                push_str(&mut self.reasoning_buf, d.as_str());
            },
            SimEvent::ReasoningFinal(text) => {
                push_str(&mut self.reasoning_buf, text.as_str());
                self.flush_reasoning();
            },
            SimEvent::ApprovalRequestExec { id, command } => {
                self.request_exec(id, command);
            },
            SimEvent::ApprovalRequestPatch { id, file_count } => {
                self.request_patch(id, file_count);
            },
            SimEvent::ApprovalDecisionYes => {
                self.decide(true);
            },
            SimEvent::ApprovalDecisionNo => {
                self.decide(false);
            },
            SimEvent::TokenUsage { input, output, total } => {
                self.token_usage = (input, output, total);
            },
            SimEvent::ComposerInsert(s) => {
                push_str(&mut self.composer_content, s.as_str());
            },
            SimEvent::ComposerSubmit => {
                if self.composer_content.len() > 0 {
                    let mut submitted: Vec<char> = Vec::new();
                    std::mem::swap(&mut submitted, &mut self.composer_content);
                    let mut line = chars_of("you: ");
                    push_chars(&mut line, &submitted);
                    self.push_history(line);
                    assert(self@.composer =~= Seq::<char>::empty());
                }
            },
            SimEvent::SetWidth(w) => {
                self.width = if w >= 4 { w } else { 4 };
            },
            SimEvent::PatchApplyBegin { id, file_count, auto } => {
                let mut line = chars_of("[patch] applying id=");
                push_str(&mut line, id.as_str());
                push_str(&mut line, " files=");
                push_decimal(&mut line, file_count as u64);
                push_str(&mut line, " auto_approved=");
                push_bool(&mut line, auto);
                self.push_history(line);
            },
            SimEvent::PatchApplyEnd { id, success, stdout, stderr } => {
                self.patch_end(id, success, stdout, stderr);
            },
            SimEvent::AppendBlock { header, body } => {
                let b = chars_of(body.as_str());
                self.append_block(chars_of(header.as_str()), &b);
            },
            SimEvent::BuggyAssistantFinal(text) => {
                let mut line = chars_of("assistant(ephemeral): ");
                push_str(&mut line, text.as_str());
                let ghost before = self@;
                let ghost shown = line@;
                self.bottom.push(line);
                assert(self@.bottom =~= before.bottom.push(shown));
            },
            SimEvent::TaskComplete => {
                self.complete_task();
            },
            SimEvent::RedrawBottom => {
                self.redraw_bottom();
            },
        }
    }

    /// The composer text cut into rows of `inner_w` characters.
    fn wrap_composer(&self, inner_w: usize) -> (rows: Vec<Vec<char>>)
        ensures
            texts(rows@) == wrap_rows(self@.composer, inner_w as nat),
    {
        let text = &self.composer_content;
        let mut wrapped: Vec<Vec<char>> = Vec::new();
        if text.len() == 0 {
            wrapped.push(Vec::new());
            assert(texts(wrapped@) =~= seq![Seq::<char>::empty()]);
            return wrapped;
        }
        let mut current: Vec<char> = Vec::new();
        for i in 0..text.len()
            invariant
                (texts(wrapped@), current@) == scan_wrap(text@.take(i as int), inner_w as nat),
        {
            let ghost pre = text@.take(i as int);
            assert(text@.take(i + 1).drop_last() == pre);
            current.push(text[i]);
            if current.len() >= inner_w {
                let ghost before = texts(wrapped@);
                wrapped.push(current);
                assert(texts(wrapped@) =~= before.push(scan_wrap(pre, inner_w as nat).1.push(text@[i as int])));
                current = Vec::new();
            }
        }
        assert(text@.take(text.len() as int) == text@);
        if current.len() > 0 {
            let ghost before = texts(wrapped@);
            wrapped.push(current);
            assert(texts(wrapped@) =~= before.push(scan_wrap(text@, inner_w as nat).1));
        }
        wrapped
    }

    fn redraw_bottom(&mut self)
        ensures
            final(self)@ == (SimState { bottom: render_bottom(old(self)@), ..old(self)@ }),
    {
        let (inp, out, total) = self.token_usage;
        let approvals = self.pending_approvals.len();
        let mut status = chars_of("tok in:");
        push_decimal(&mut status, inp as u64);
        push_str(&mut status, " out:");
        push_decimal(&mut status, out as u64);
        push_str(&mut status, " total:");
        push_decimal(&mut status, total as u64);
        push_str(&mut status, " approvals:");
        push_decimal(&mut status, approvals as u64);
        let w = self.width;
        let inner_w = w.saturating_sub(2);
        let wrapped = self.wrap_composer(inner_w);
        let mut top = chars_of("┌");
        push_repeat(&mut top, '─', inner_w);
        push_str(&mut top, "┐");
        let mut bottom = chars_of("└");
        push_repeat(&mut bottom, '─', inner_w);
        push_str(&mut bottom, "┘");
        let ghost rows = wrap_rows(self@.composer, inner_w as nat);
        let mut out_lines: Vec<Vec<char>> = Vec::new();
        out_lines.push(top);
        for i in 0..wrapped.len()
            invariant
                texts(wrapped@) == rows,
                texts(out_lines@) == seq![box_top(inner_w as nat)] + rows.take(i as int).map_values(
                    |l: Seq<char>| box_row(l, inner_w as nat),
                ),
        {
            let mut row = chars_of("│");
            let padded = pad_to_width(&wrapped[i], inner_w);
            push_chars(&mut row, &padded);
            push_str(&mut row, "│");
            let ghost before = texts(out_lines@);
            out_lines.push(row);
            assert(rows.take(i + 1).map_values(|l: Seq<char>| box_row(l, inner_w as nat))
                =~= rows.take(i as int).map_values(|l: Seq<char>| box_row(l, inner_w as nat)).push(
                box_row(rows[i as int], inner_w as nat),
            ));
            assert(texts(out_lines@) =~= before.push(row@));
        }
        assert(rows.take(wrapped.len() as int) == rows);
        let ghost before = texts(out_lines@);
        out_lines.push(bottom);
        out_lines.push(status);
        assert(texts(out_lines@) =~= before.push(box_bottom(inner_w as nat)).push(
            status_line(old(self)@),
        ));
        self.bottom = out_lines;
        assert(self@.bottom =~= render_bottom(old(self)@));
    }

    /// The transcript: every history line, then `--BOTTOM--`, then the
    /// bottom pane as last drawn.
    pub fn export(&self) -> (out: Vec<String>)
        ensures
            out.deep_view() == transcript(self@),
    {
        let mut all: Vec<Vec<char>> = Vec::new();
        for i in 0..self.history.len()
            invariant
                texts(all@) == texts(self.history@).take(i as int),
        {
            all.push(self.history[i].clone());
            assert(texts(self.history@).take(i + 1) =~= texts(self.history@).take(i as int).push(
                self.history@[i as int]@,
            ));
            assert(texts(all@) =~= texts(self.history@).take(i as int).push(self.history@[i as int]@));
        }
        assert(texts(self.history@).take(self.history.len() as int) =~= texts(self.history@));
        all.push(chars_of("--BOTTOM--"));
        let ghost mid = texts(all@);
        for i in 0..self.bottom.len()
            invariant
                texts(all@) == mid + texts(self.bottom@).take(i as int),
        {
            let ghost before = texts(all@);
            all.push(self.bottom[i].clone());
            assert(texts(all@) =~= before.push(self.bottom@[i as int]@));
            assert(texts(self.bottom@).take(i + 1) =~= texts(self.bottom@).take(i as int).push(
                self.bottom@[i as int]@,
            ));
        }
        assert(texts(self.bottom@).take(self.bottom.len() as int) =~= texts(self.bottom@));
        assert(texts(all@) =~= transcript(self@));
        strings_of(&all)
    }


    /// Checks that the history agrees with the recorded turns and holds no
    /// bottom-pane lines, and that every output header has content after it.
    /// Returns the first violation as text.
    #[verifier::loop_isolation(false)]
    pub fn assert_invariants(&self) -> (r: Result<(), String>)
        ensures
            report_matches(r, invariant_report(self@)),
    {
        let ghost st = self@;
        let a_prefix = chars_of("assistant:");
        let r_prefix = chars_of("<reasoning> ");
        let printed_assistant = collect_with_prefix(&self.history, &a_prefix);
        let printed_reasoning = collect_with_prefix(&self.history, &r_prefix);
        if printed_assistant.len() != self.answered_turns.len() {
            let mut m = chars_of("assistant turn count mismatch printed=");
            push_decimal(&mut m, printed_assistant.len() as u64);
            push_str(&mut m, " recorded=");
            push_decimal(&mut m, self.answered_turns.len() as u64);
            return Err(string_of(&m));
        }
        let a_payload = chars_of("assistant: ");
        match find_mismatch(&self.answered_turns, &printed_assistant, &a_payload) {
            Some(i) => {
                let got = strip_or_keep(&printed_assistant[i], &a_payload);
                let m = mismatch_text("assistant", i, &self.answered_turns[i], &got);
                assert(st.answered_turns[i as int] == self.answered_turns@[i as int]@);
                assert(texts(printed_assistant@)[i as int] == printed_assistant@[i as int]@);
                return Err(string_of(&m));
            },
            None => {},
        }
        if printed_reasoning.len() != self.reasoning_turns.len() {
            return Err(string_of(&chars_of("reasoning turn count mismatch")));
        }
        match find_mismatch(&self.reasoning_turns, &printed_reasoning, &r_prefix) {
            Some(i) => {
                let got = strip_or_keep(&printed_reasoning[i], &r_prefix);
                let m = mismatch_text("reasoning", i, &self.reasoning_turns[i], &got);
                assert(st.reasoning_turns[i as int] == self.reasoning_turns@[i as int]@);
                assert(texts(printed_reasoning@)[i as int] == printed_reasoning@[i as int]@);
                return Err(string_of(&m));
            },
            None => {},
        }
        let corner = chars_of("┌");
        let marker = chars_of("--BOTTOM--");
        for i in 0..self.history.len()
            invariant
                st == self@,
                corner@ == "┌"@,
                marker@ == "--BOTTOM--"@,
                forall|j: int| 0 <= j < i ==> !is_artefact(#[trigger] st.history[j]),
        {
            if has_prefix(&self.history[i], &corner) || same_chars(&self.history[i], &marker) {
                assert(is_artefact(st.history[i as int]));
                return Err(string_of(&chars_of("bottom artefacts leaked into history")));
            }
        }
        let out_h = chars_of("[stdout]");
        let err_h = chars_of("[stderr]");
        let bracket = chars_of("[");
        let n = self.history.len();
        for i in 0..n
            invariant
                st == self@,
                n == st.history.len(),
                out_h@ == "[stdout]"@,
                err_h@ == "[stderr]"@,
                bracket@ == "["@,
                forall|j: int| 0 <= j < i ==> !#[trigger] header_unfollowed(st.history, j),
        {
            let line = &self.history[i];
            if same_chars(line, &out_h) || same_chars(line, &err_h) {
                if i + 1 >= n || has_prefix(&self.history[i + 1], &bracket) {
                    assert(header_unfollowed(st.history, i as int));
                    return Err(string_of(&chars_of("stdout/stderr header not followed by content")));
                }
            }
        }
        Ok(())
    }

    /// Number of lines in the bottom pane as last drawn.
    pub fn bottom_line_count(&self) -> (n: usize)
        ensures
            n == self@.bottom.len(),
    {
        self.bottom.len()
    }
}


/// The lines of `h` that begin with `p`.
fn collect_with_prefix(h: &Vec<Vec<char>>, p: &Vec<char>) -> (r: Vec<Vec<char>>)
    ensures
        texts(r@) == lines_with_prefix(texts(h@), p@),
{
    let mut r: Vec<Vec<char>> = Vec::new();
    for i in 0..h.len()
        invariant
            texts(r@) == lines_with_prefix(texts(h@).take(i as int), p@),
    {
        let ghost pre = texts(h@).take(i as int);
        assert(texts(h@).take(i + 1).drop_last() =~= pre);
        assert(texts(h@).take(i + 1).last() == h@[i as int]@);
        if has_prefix(&h[i], p) {
            let ghost before = texts(r@);
            r.push(h[i].clone());
            assert(texts(r@) =~= before.push(h@[i as int]@));
        }
    }
    assert(texts(h@).take(h.len() as int) =~= texts(h@));
    r
}

/// `line` without the leading `p` when it begins with `p`.
fn strip_or_keep(line: &Vec<char>, p: &Vec<char>) -> (r: Vec<char>)
    ensures
        r@ == strip_prefix_or_self(line@, p@),
{
    if has_prefix(line, p) {
        chars_from(line, p.len())
    } else {
        line.clone()
    }
}

/// The index of the first payload mismatch, as `first_mismatch` from 0.
fn find_mismatch(expected: &Vec<Vec<char>>, printed: &Vec<Vec<char>>, prefix: &Vec<char>) -> (r:
    Option<usize>)
    ensures
        match first_mismatch(texts(expected@), texts(printed@), prefix@, 0) {
            Some(i) => r == Some(i as usize) && i < expected.len() && i < printed.len(),
            None => r is None,
        },
        r matches Some(i) ==> i < expected.len() && i < printed.len(),
{
    let n = if expected.len() < printed.len() { expected.len() } else { printed.len() };
    for i in 0..n
        invariant
            n <= expected.len(),
            n <= printed.len(),
            n == expected.len() || n == printed.len(),
            first_mismatch(texts(expected@), texts(printed@), prefix@, 0) == first_mismatch(
                texts(expected@),
                texts(printed@),
                prefix@,
                i as nat,
            ),
    {
        let p = strip_or_keep(&printed[i], prefix);
        if !same_chars(&p, &expected[i]) {
            return Some(i);
        }
    }
    None
}

/// The text of a payload mismatch report.
fn mismatch_text(kind: &str, i: usize, expected: &Vec<char>, got: &Vec<char>) -> (m: Vec<char>)
    ensures
        m@ == mismatch_message(kind@, i as nat, expected@, got@),
{
    let mut m = chars_of(kind);
    push_str(&mut m, " turn ");
    push_decimal(&mut m, i as u64);
    push_str(&mut m, " payload mismatch expected='");
    push_chars(&mut m, expected);
    push_str(&mut m, "' got='");
    push_chars(&mut m, got);
    push_str(&mut m, "'");
    m
}

/// Runs `events` in order on a fresh simulation.
pub fn run_script(events: Vec<SimEvent>) -> (sim: Simulation)
    ensures
        sim@ == run(empty_state(40), events@),
{
    let mut sim = Simulation::new();
    for ev in it: events
        invariant
            sim@ == run(empty_state(40), it.seq().take(it.index() as int)),
            it.seq() == events@,
    {
        let ghost done = it.seq().take(it.index() as int);
        assert(it.seq().take(it.index() + 1).drop_last() == done);
        sim.apply(ev);
    }
    proof {
        assert(events@.take(events@.len() as int) == events@);
    }
    sim
}

} // verus!
