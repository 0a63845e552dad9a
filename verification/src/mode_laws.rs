//! Properties of the append-only terminal UI that hold across events, keys
//! and screen sizes.
use vstd::prelude::*;

use crate::hybrid_mode::{
    agent_message_actions, agent_step, reasoning_line, decision_op, decision_print, key_step, ActionView,
    AgentEvent, HybridView, KeyInput, KeyView, OpView, ReviewDecision,
};
use crate::hybrid_render::{
    approval_prompt_for, composer_cursor, composer_pane, composer_row, insert_row, is_fence,
    layout_of, markdown_blocks, markdown_scan, padded, status_text, styled, truncated,
    width_less, RequestView, TokenUsage, DIM, FG_GREEN, FG_MAGENTA, FG_YELLOW, RESET,
    RESERVED_INPUT_BUFFER,
};
use crate::hybrid_sim::{box_bottom, box_top};
use crate::text::{debug_list, decimal, lines_of, starts_with};

verus! {

// ---------------------------------------------------------------------------
// Cutting and padding.
// ---------------------------------------------------------------------------

/// Law: cutting keeps the first `min(len, width)` characters, unchanged.
pub proof fn law_truncated(s: Seq<char>, width: nat)
    ensures
        truncated(s, width).len() == if s.len() <= width {
            s.len()
        } else {
            width
        },
        truncated(s, width) == s.take(truncated(s, width).len() as int),
{
    if s.len() <= width {
        assert(s.take(s.len() as int) =~= s);
    }
}

/// Law: padding always gives exactly `width` characters, beginning with as
/// much of `s` as fits.
pub proof fn law_padded(s: Seq<char>, width: nat)
    ensures
        padded(s, width).len() == width,
        padded(s, width).take(truncated(s, width).len() as int) == truncated(s, width),
{
    law_truncated(s, width);
    let t = truncated(s, width);
    assert(padded(s, width).take(t.len() as int) =~= t);
}

// ---------------------------------------------------------------------------
// The bottom pane fits the terminal.
// ---------------------------------------------------------------------------

/// Law: the status line is never wider than the terminal.
pub proof fn law_status_fits(approvals: nat, usage: TokenUsage, ctrl_c_first: bool, width: nat)
    ensures
        truncated(status_text(approvals, usage, ctrl_c_first), width).len() <= width,
{
}

/// Law: with requests pending, the status line announces how many before
/// anything else, and the rest is the status line without requests; with none
/// pending it begins with the input token count, and without the quit hint it
/// is exactly the three token counts.
pub proof fn law_status_announces_approvals(approvals: nat, usage: TokenUsage, ctrl_c_first: bool)
    ensures
        approvals > 0 ==> status_text(approvals, usage, ctrl_c_first) == "approval pending ("@
            + decimal(approvals) + ") y/n"@ + " | "@ + status_text(0, usage, ctrl_c_first),
        starts_with(
            status_text(0, usage, ctrl_c_first),
            "tok in:"@ + decimal(usage.input_tokens as nat),
        ),
        status_text(0, usage, false) == "tok in:"@ + decimal(usage.input_tokens as nat) + " out:"@
            + decimal(usage.output_tokens as nat) + " total:"@ + decimal(
            usage.total_tokens as nat,
        ),
{
    let p = "tok in:"@ + decimal(usage.input_tokens as nat);
    let t = status_text(0, usage, ctrl_c_first);
    assert(t.subrange(0, p.len() as int) =~= p);
    assert(status_text(0, usage, false) =~= "tok in:"@ + decimal(usage.input_tokens as nat)
        + " out:"@ + decimal(usage.output_tokens as nat) + " total:"@ + decimal(
        usage.total_tokens as nat,
    ));
}

/// Law: an armed Ctrl+C adds the quit hint at the very end of the status
/// line and changes nothing before it.
pub proof fn law_status_quit_hint(approvals: nat, usage: TokenUsage)
    ensures
        status_text(approvals, usage, true) == status_text(approvals, usage, false) + " | "@
            + "press Ctrl+C again to quit"@,
{
    assert(status_text(approvals, usage, false) =~= status_text(approvals, usage, false)
        + Seq::<char>::empty());
}

/// Law: on a terminal at least two columns wide, each line of the composer
/// box (top border, text rows, bottom border) is exactly as wide as the
/// terminal, and no prompt line is wider.
pub proof fn law_composer_box_fits(
    approval_lines: Seq<Seq<char>>,
    popup_lines: Seq<Seq<char>>,
    text_lines: Seq<Seq<char>>,
    width: nat,
)
    requires
        width >= 2,
    ensures
        ({
            let pane = composer_pane(approval_lines, popup_lines, text_lines, width);
            let start = approval_lines.len() + popup_lines.len();
            &&& pane.len() == start + text_lines.len() + 2
            &&& forall|i: int| start <= i < pane.len() ==> (#[trigger] pane[i]).len() == width
            &&& forall|i: int| 0 <= i < approval_lines.len() ==> (#[trigger] pane[i]).len() <= width
        }),
{
    reveal_strlit("┌");
    reveal_strlit("┐");
    reveal_strlit("└");
    reveal_strlit("┘");
    reveal_strlit("│");
    let pane = composer_pane(approval_lines, popup_lines, text_lines, width);
    let w = width_less(width, 2);
    let start = approval_lines.len() + popup_lines.len();
    let a = approval_lines.map_values(|l: Seq<char>| truncated(l, width));
    let rows = text_lines.map_values(|l: Seq<char>| composer_row(l, w));
    assert(box_top(w).len() == width);
    assert(box_bottom(w).len() == width);
    assert forall|i: int| start <= i < pane.len() implies (#[trigger] pane[i]).len() == width by {
        if i == start {
            assert(pane[i] == truncated(box_top(w), width));
        } else if i < pane.len() - 1 {
            assert(pane[i] == rows[i - start - 1]);
            law_padded(truncated(text_lines[i - start - 1], w), w);
        } else {
            assert(pane[i] == truncated(box_bottom(w), width));
        }
    }
    assert forall|i: int| 0 <= i < approval_lines.len() implies (#[trigger] pane[i]).len()
        <= width by {
        assert(pane[i] == a[i]);
    }
}

/// Law: the cursor lands on the composer row it is on, inside the box: one
/// column right of the left border and never on the right border.
pub proof fn law_cursor_inside_box(
    approval_lines: Seq<Seq<char>>,
    popup_lines: Seq<Seq<char>>,
    text_lines: Seq<Seq<char>>,
    cursor: (usize, usize),
    width: nat,
)
    requires
        cursor.0 < text_lines.len(),
        width >= 3,
    ensures
        ({
            let pane = composer_pane(approval_lines, popup_lines, text_lines, width);
            let (row, col) = composer_cursor(
                approval_lines.len(),
                popup_lines.len(),
                cursor,
                width,
            );
            &&& row < pane.len()
            &&& pane[row as int] == composer_row(text_lines[cursor.0 as int], width_less(width, 2))
            &&& 1 <= col <= width - 2
        }),
{
    let pane = composer_pane(approval_lines, popup_lines, text_lines, width);
    let w = width_less(width, 2);
    let rows = text_lines.map_values(|l: Seq<char>| composer_row(l, w));
    let start = approval_lines.len() + popup_lines.len();
    assert(pane[start + 1 + cursor.0] == rows[cursor.0 as int]);
}

/// Law: when the terminal has room, the pane ends on its last row, the
/// reserved blank rows sit right above it, and history is printed on the row
/// just above those.
pub proof fn law_pane_at_bottom(term_height: u16, height: u16)
    requires
        term_height >= height + RESERVED_INPUT_BUFFER,
    ensures
        ({
            let l = layout_of(term_height, height, 0);
            &&& l.content_start + height == term_height
            &&& l.buffer_start + RESERVED_INPUT_BUFFER == l.content_start
            &&& l.clear_old_from is None
            &&& l.buffer_start > 0 ==> insert_row(term_height, height) == Some(
                (l.buffer_start - 1) as u16,
            )
        }),
{
}

/// Law: a pane drawn over one of the same height clears exactly the rows the
/// old one used.
pub proof fn law_redraw_clears_old_pane(term_height: u16, height: u16)
    requires
        height > 0,
        term_height >= height + RESERVED_INPUT_BUFFER,
    ensures
        layout_of(term_height, height, height).clear_old_from == Some(
            layout_of(term_height, height, height).content_start,
        ),
{
}

// ---------------------------------------------------------------------------
// Assistant messages.
// ---------------------------------------------------------------------------

/// Law: formatting a message gives exactly one styled line per line of it.
pub proof fn law_one_line_per_line(prefix: Seq<char>, text: Seq<char>, color: Seq<char>)
    ensures
        markdown_blocks(prefix, text, color).len() == lines_of(text).len(),
{
    lemma_scan_len(lines_of(text), prefix, color);
}

proof fn lemma_scan_len(ls: Seq<Seq<char>>, prefix: Seq<char>, color: Seq<char>)
    ensures
        markdown_scan(ls, prefix, color).0.len() == ls.len(),
    decreases ls.len(),
{
    if ls.len() > 0 {
        lemma_scan_len(ls.drop_last(), prefix, color);
    }
}

/// Law: a message with no code fence and no heading is printed line for line:
/// line `i` of the output is the coloured prefix, `": "` and line `i` of the
/// message, unchanged.
pub proof fn law_plain_lines_kept(prefix: Seq<char>, text: Seq<char>, color: Seq<char>)
    requires
        forall|i: int| 0 <= i < lines_of(text).len() ==> !is_fence(#[trigger] lines_of(text)[i])
            && !starts_with(lines_of(text)[i], "#"@),
    ensures
        markdown_blocks(prefix, text, color).len() == lines_of(text).len(),
        forall|i: int| 0 <= i < lines_of(text).len() ==> #[trigger] markdown_blocks(prefix, text, color)[i]
            == color + prefix + RESET@ + ": "@ + lines_of(text)[i],
{
    lemma_plain_scan(lines_of(text), prefix, color);
}

proof fn lemma_plain_scan(ls: Seq<Seq<char>>, prefix: Seq<char>, color: Seq<char>)
    requires
        forall|i: int| 0 <= i < ls.len() ==> !is_fence(#[trigger] ls[i]) && !starts_with(ls[i], "#"@),
    ensures
        markdown_scan(ls, prefix, color).0.len() == ls.len(),
        !markdown_scan(ls, prefix, color).1,
        forall|i: int| 0 <= i < ls.len() ==> #[trigger] markdown_scan(ls, prefix, color).0[i]
            == color + prefix + RESET@ + ": "@ + ls[i],
    decreases ls.len(),
{
    if ls.len() > 0 {
        let init = ls.drop_last();
        assert forall|i: int| 0 <= i < init.len() implies !is_fence(#[trigger] init[i])
            && !starts_with(init[i], "#"@) by {
            assert(init[i] == ls[i]);
        }
        lemma_plain_scan(init, prefix, color);
        assert(!is_fence(ls[ls.len() - 1]));
    }
}

/// Law: an assistant message with at least one line is printed whole, as one
/// history batch holding one formatted line per line of the message; a
/// message with no line prints nothing.
pub proof fn law_message_printed_whole(t: Seq<char>)
    ensures
        lines_of(t).len() > 0 ==> agent_message_actions(t) == seq![
            ActionView::History(markdown_blocks("assistant"@, t, FG_GREEN@)),
        ],
        lines_of(t).len() > 0 ==> markdown_blocks("assistant"@, t, FG_GREEN@).len() == lines_of(
            t,
        ).len(),
        lines_of(t).len() == 0 ==> agent_message_actions(t) == Seq::<ActionView>::empty(),
{
    law_one_line_per_line("assistant"@, t, FG_GREEN@);
}

/// Law: the final assistant message prints the buffered text followed by the
/// message, whole, in one batch, and ends the turn.
pub proof fn law_final_message_prints_every_line(s: HybridView, id: Seq<char>, message: String)
    requires
        lines_of(s.answer + message@).len() > 0,
    ensures
        agent_step(s, id, AgentEvent::AgentMessage { message }).1 == seq![
            ActionView::History(markdown_blocks("assistant"@, s.answer + message@, FG_GREEN@)),
        ],
        agent_step(s, id, AgentEvent::AgentMessage { message }).2,
        agent_step(s, id, AgentEvent::AgentMessage { message }).0.answer.len() == 0,
{
    law_message_printed_whole(s.answer + message@);
}

/// The state and actions after the events `evs`, one after the other.
pub open spec fn agent_run(s: HybridView, evs: Seq<(Seq<char>, AgentEvent)>) -> (
    HybridView,
    Seq<ActionView>,
)
    decreases evs.len(),
{
    if evs.len() == 0 {
        (s, Seq::empty())
    } else {
        let (s1, a1) = agent_run(s, evs.drop_last());
        let (s2, a2, _done) = agent_step(s1, evs.last().0, evs.last().1);
        (s2, a1 + a2)
    }
}

/// Streamed assistant deltas, all with id `id`.
pub open spec fn message_deltas(id: Seq<char>, deltas: Seq<String>) -> Seq<(Seq<char>, AgentEvent)> {
    deltas.map_values(|d: String| (id, AgentEvent::AgentMessageDelta { delta: d }))
}

/// The deltas joined.
pub open spec fn joined(deltas: Seq<String>) -> Seq<char>
    decreases deltas.len(),
{
    if deltas.len() == 0 {
        Seq::empty()
    } else {
        joined(deltas.drop_last()) + deltas.last()@
    }
}

proof fn lemma_deltas_buffered(s: HybridView, id: Seq<char>, deltas: Seq<String>)
    ensures
        agent_run(s, message_deltas(id, deltas)).0 == (HybridView {
            answer: s.answer + joined(deltas),
            ..s
        }),
        agent_run(s, message_deltas(id, deltas)).1 == Seq::<ActionView>::empty(),
    decreases deltas.len(),
{
    if deltas.len() == 0 {
        assert(s.answer + joined(deltas) =~= s.answer);
        assert(agent_run(s, message_deltas(id, deltas)).0 == s);
    } else {
        lemma_deltas_buffered(s, id, deltas.drop_last());
        assert(message_deltas(id, deltas).drop_last() =~= message_deltas(id, deltas.drop_last()));
        assert(s.answer + joined(deltas.drop_last()) + deltas.last()@ =~= s.answer + joined(deltas));
    }
}

/// Law: streamed deltas print nothing until the message arrives; then the
/// streamed text followed by the message's own text is printed once, as one
/// history batch, and the buffer is empty again.
pub proof fn law_streamed_message_printed_once(
    s: HybridView,
    id: Seq<char>,
    deltas: Seq<String>,
    message: String,
)
    requires
        s.answer.len() == 0,
    ensures
        ({
            let evs = message_deltas(id, deltas).push(
                (id, AgentEvent::AgentMessage { message }),
            );
            let (s2, acts) = agent_run(s, evs);
            &&& acts == agent_message_actions(joined(deltas) + message@)
            &&& s2.answer.len() == 0
            &&& acts.len() <= 1
        }),
{
    lemma_deltas_buffered(s, id, deltas);
    let evs = message_deltas(id, deltas).push((id, AgentEvent::AgentMessage { message }));
    assert(evs.drop_last() =~= message_deltas(id, deltas));
    assert(s.answer + joined(deltas) =~= joined(deltas));
    let t = joined(deltas) + message@;
    assert(Seq::<ActionView>::empty() + agent_message_actions(t) =~= agent_message_actions(t));
}

/// Law: a final reasoning event prints the streamed reasoning followed by
/// its own text, as one history line, and empties the buffer.
pub proof fn law_reasoning_joined(s: HybridView, id: Seq<char>, text: String)
    ensures
        agent_step(s, id, AgentEvent::AgentReasoning { text }).1 == seq![
            ActionView::History(seq![reasoning_line(s.reasoning + text@)]),
        ],
        agent_step(s, id, AgentEvent::AgentReasoning { text }).0.reasoning.len() == 0,
        agent_step(s, id, AgentEvent::AgentReasoning { text }).0.answer == s.answer,
{
}

/// Law: completing a task prints what is still buffered (the streamed
/// answer, then the streamed reasoning), then the completion line, and
/// leaves both buffers empty; it ends a turn exactly when an answer was
/// still buffered.
pub proof fn law_completion_flushes_buffers(s: HybridView, id: Seq<char>)
    ensures
        ({
            let (s2, acts, done) = agent_step(s, id, AgentEvent::TaskComplete);
            &&& s2.answer.len() == 0
            &&& s2.reasoning.len() == 0
            &&& acts.last() == ActionView::History(seq!["[task] complete"@])
            &&& done == (s.answer.len() > 0)
            &&& s2.approvals == s.approvals
        }),
{
}

// ---------------------------------------------------------------------------
// Keys and approvals.
// ---------------------------------------------------------------------------

pub open spec fn ctrl_c() -> KeyInput {
    KeyInput { ch: Some('c'), ctrl: true }
}

/// Law: Ctrl+C twice in a row quits, whatever came before; the first one
/// only arms quitting and changes nothing else.
pub proof fn law_ctrl_c_twice_quits(s: HybridView, composer_empty: bool)
    ensures
        key_step(key_step(s, ctrl_c(), composer_empty).0, ctrl_c(), composer_empty).1
            == KeyView::Quit,
        key_step(s, ctrl_c(), composer_empty).0.approvals == s.approvals,
{
}

/// Law: a key other than Ctrl+C and Ctrl+D disarms quitting, so the next
/// Ctrl+C does not quit.
pub proof fn law_other_key_disarms(s: HybridView, key: KeyInput, composer_empty: bool)
    requires
        !(key.ctrl && (key.ch == Some('c') || key.ch == Some('d'))),
    ensures
        !key_step(s, key, composer_empty).0.ctrl_c_first,
        key_step(key_step(s, key, composer_empty).0, ctrl_c(), composer_empty).1 == KeyView::Redraw,
{
}

/// Law: with an empty composer, y / Y approve and n / N deny the oldest
/// pending request (first in, first out): its decision is sent, one line is
/// printed, and it leaves the queue; the other requests stay in order.
pub proof fn law_decision_answers_oldest(s: HybridView, c: char, ctrl: bool)
    requires
        s.approvals.len() > 0,
        c == 'y' || c == 'Y' || c == 'n' || c == 'N',
        !(ctrl && c == 'd'),
    ensures
        ({
            let d = if c == 'y' || c == 'Y' {
                ReviewDecision::Approved
            } else {
                ReviewDecision::Denied
            };
            let (s2, k) = key_step(s, KeyInput { ch: Some(c), ctrl }, true);
            &&& s2.approvals == s.approvals.drop_first()
            &&& k == KeyView::Decided(
                decision_op(s.approvals[0], d),
                decision_print(s.approvals[0], d),
            )
        }),
{
}

/// Law: the submission a decision key sends carries that key's decision
/// (y / Y approve, n / N deny) and the oldest request's id, for an exec and a
/// patch request alike, and the printed line names the same kind, id and
/// decision.
pub proof fn law_decision_key_sends_its_decision(s: HybridView, c: char, ctrl: bool)
    requires
        s.approvals.len() > 0,
        c == 'y' || c == 'Y' || c == 'n' || c == 'N',
        !(ctrl && c == 'd'),
    ensures
        ({
            let approve = c == 'y' || c == 'Y';
            let d = if approve {
                ReviewDecision::Approved
            } else {
                ReviewDecision::Denied
            };
            let word = if approve {
                "Approved"@
            } else {
                "Denied"@
            };
            let k = key_step(s, KeyInput { ch: Some(c), ctrl }, true).1;
            match s.approvals[0] {
                RequestView::Exec { id, .. } => k == KeyView::Decided(
                    OpView::ExecApproval(id, d),
                    "[approval] "@ + "exec"@ + " "@ + id + " -> "@ + word,
                ),
                RequestView::Patch { id, .. } => k == KeyView::Decided(
                    OpView::PatchApproval(id, d),
                    "[approval] "@ + "patch"@ + " "@ + id + " -> "@ + word,
                ),
            }
        }),
{
}

/// Law: the approval prompt for the oldest pending request: a heading first,
/// then the grant root line exactly when the request has one, then the reason
/// line exactly when it has one (whatever its grant root), and last the
/// "press y / n" line; nothing when no request is pending.
pub proof fn law_approval_prompt_shows_reason(approvals: Seq<RequestView>)
    ensures
        approvals.len() == 0 ==> approval_prompt_for(approvals) == Seq::<Seq<char>>::empty(),
        approvals.len() > 0 ==> ({
            let p = approval_prompt_for(approvals);
            match approvals[0] {
                RequestView::Exec { command, cwd, reason, .. } => {
                    &&& p.len() == 2 + (if reason is Some { 1int } else { 0int })
                    &&& p[0] == styled(
                        FG_YELLOW@,
                        "APPROVAL (exec): "@ + debug_list(command) + " cwd="@ + cwd,
                    )
                    &&& (reason matches Some(r) ==> p[1] == styled(DIM@, "reason: "@ + r))
                    &&& p[p.len() - 1] == styled(FG_YELLOW@, "press y / n"@)
                },
                RequestView::Patch { file_count, reason, grant_root, .. } => {
                    &&& p.len() == 2 + (if reason is Some { 1int } else { 0int }) + (if grant_root is Some {
                        1int
                    } else {
                        0int
                    })
                    &&& p[0] == styled(
                        FG_MAGENTA@,
                        "APPROVAL (patch): "@ + decimal(file_count) + " files"@,
                    )
                    &&& (grant_root matches Some(g) ==> p[1] == styled(DIM@, "grant root: "@ + g))
                    &&& (reason matches Some(r) ==> p[p.len() - 2] == styled(DIM@, "reason: "@ + r))
                    &&& p[p.len() - 1] == styled(FG_MAGENTA@, "press y / n"@)
                },
            }
        }),
{
}

/// Law: with text in the composer, no key answers a request: the queue
/// stays as it is.
pub proof fn law_composer_keys_keep_queue(s: HybridView, key: KeyInput)
    ensures
        key_step(s, key, false).0.approvals == s.approvals,
        key_step(s, key, false).1 != KeyView::Quit ==> !(key_step(s, key, false).1 is Decided),
{
}

/// Law: an approval request joins the end of the queue.
pub proof fn law_request_joins_queue(
    s: HybridView,
    id: Seq<char>,
    command: Vec<String>,
    cwd: String,
    reason: Option<String>,
)
    ensures
        agent_step(
            s,
            id,
            AgentEvent::ExecApprovalRequest { command, cwd, reason },
        ).0.approvals.drop_last() == s.approvals,
        agent_step(
            s,
            id,
            AgentEvent::ExecApprovalRequest { command, cwd, reason },
        ).0.approvals.last() is Exec,
{
    assert(s.approvals.push(
        agent_step(s, id, AgentEvent::ExecApprovalRequest { command, cwd, reason }).0.approvals.last(),
    ).drop_last() =~= s.approvals);
}

} // verus!
