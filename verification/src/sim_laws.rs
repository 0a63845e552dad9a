//! Properties of the simulation that hold across events.
use vstd::prelude::*;

use crate::hybrid_sim::{
    block_lines, box_bottom, box_row, box_top, decision_line, empty_state, exec_request_line,
    first_mismatch, flush_answer, flush_reasoning, header_unfollowed, inner_width,
    invariant_report, is_artefact, is_output_header, lines_with_prefix, min_nat, pad_text,
    patch_begin_line, patch_end_lines, patch_request_line, render_bottom, run, scan_wrap,
    status_line, step, transcript, with_line, with_lines, wrap_rows, PendingApproval, SimEvent,
    SimState,
};
use crate::text::decimal;
use crate::text::{starts_with, strip_prefix_or_self};

verus! {

/// The printed turn lines match the recorded turns one for one: each shows
/// its turn once the payload prefix `q` is taken off.
pub open spec fn turns_match(printed: Seq<Seq<char>>, turns: Seq<Seq<char>>, q: Seq<char>) -> bool {
    &&& printed.len() == turns.len()
    &&& forall|i: int|
        0 <= i < turns.len() ==> strip_prefix_or_self(#[trigger] printed[i], q) == turns[i]
}

// ---------------------------------------------------------------------------
// The consistency invariant.
// ---------------------------------------------------------------------------

/// The history agrees with the recorded turns, holds no bottom-pane lines, and
/// every output header is followed by a content line: exactly the properties
/// that `assert_invariants` checks.
pub open spec fn consistent(s: SimState) -> bool {
    &&& turns_match(
        lines_with_prefix(s.history, "assistant:"@),
        s.answered_turns,
        "assistant: "@,
    )
    &&& turns_match(
        lines_with_prefix(s.history, "<reasoning> "@),
        s.reasoning_turns,
        "<reasoning> "@,
    )
    &&& forall|i: int| 0 <= i < s.history.len() ==> !is_artefact(#[trigger] s.history[i])
    &&& forall|i: int| 0 <= i < s.history.len() ==> !#[trigger] header_unfollowed(s.history, i)
}

/// Lines copied verbatim into the history are clean when none of them could
/// pass for an assistant or reasoning line or a bottom-pane line, and every
/// output header among them is followed, inside the block, by a line that
/// does not begin with `[`.
pub open spec fn clean_lines(l: Seq<Seq<char>>) -> bool {
    forall|j: int|
        0 <= j < l.len() ==> {
            &&& !starts_with(#[trigger] l[j], "assistant:"@)
            &&& !starts_with(l[j], "<reasoning> "@)
            &&& !is_artefact(l[j])
            &&& !header_unfollowed(l, j)
        }
}

/// The events whose verbatim lines are clean (all others always are).
pub open spec fn well_formed_event(ev: SimEvent) -> bool {
    match ev {
        SimEvent::AppendBlock { header, body } => clean_lines(block_lines(header@, body@)),
        SimEvent::PatchApplyEnd { id, success, stdout, stderr } => clean_lines(
            patch_end_lines(id@, success, stdout@, stderr@),
        ),
        _ => true,
    }
}

/// A line built by the simulation that no check can mistake for anything:
/// its first character is none of `a`, `<`, `┌`, `-`, and when it is `[` the
/// second is not `s`.
pub open spec fn safe_line(l: Seq<char>) -> bool {
    &&& l.len() >= 2
    &&& l[0] != 'a'
    &&& l[0] != '<'
    &&& l[0] != '┌'
    &&& l[0] != '-'
    &&& (l[0] == '[' ==> l[1] != 's')
}

proof fn lemma_literals()
    ensures
        "assistant:"@ == seq!['a', 's', 's', 'i', 's', 't', 'a', 'n', 't', ':'],
        "assistant: "@ == seq!['a', 's', 's', 'i', 's', 't', 'a', 'n', 't', ':', ' '],
        "<reasoning> "@ == seq!['<', 'r', 'e', 'a', 's', 'o', 'n', 'i', 'n', 'g', '>', ' '],
        "┌"@ == seq!['┌'],
        "--BOTTOM--"@ == seq!['-', '-', 'B', 'O', 'T', 'T', 'O', 'M', '-', '-'],
        "[stdout]"@ == seq!['[', 's', 't', 'd', 'o', 'u', 't', ']'],
        "[stderr]"@ == seq!['[', 's', 't', 'd', 'e', 'r', 'r', ']'],
        "["@ == seq!['['],
{
    reveal_strlit("assistant:");
    reveal_strlit("assistant: ");
    reveal_strlit("<reasoning> ");
    reveal_strlit("┌");
    reveal_strlit("--BOTTOM--");
    reveal_strlit("[stdout]");
    reveal_strlit("[stderr]");
    reveal_strlit("[");
}

proof fn lemma_safe_line(l: Seq<char>)
    requires
        safe_line(l),
    ensures
        !starts_with(l, "assistant:"@),
        !starts_with(l, "<reasoning> "@),
        !is_artefact(l),
        !is_output_header(l),
{
    lemma_literals();
    if starts_with(l, "assistant:"@) {
        assert(l.subrange(0, 10)[0] == l[0]);
    }
    if starts_with(l, "<reasoning> "@) {
        assert(l.subrange(0, 12)[0] == l[0]);
    }
    if starts_with(l, "┌"@) {
        assert(l.subrange(0, 1)[0] == l[0]);
    }
    if l == "[stdout]"@ || l == "[stderr]"@ {
        assert(l[1] == 's');
    }
}

/// Lines with a prefix, taken from two concatenated parts.
proof fn lemma_prefix_lines_concat(a: Seq<Seq<char>>, b: Seq<Seq<char>>, p: Seq<char>)
    ensures
        lines_with_prefix(a + b, p) == lines_with_prefix(a, p) + lines_with_prefix(b, p),
    decreases b.len(),
{
    if b.len() == 0 {
        assert(a + b =~= a);
        assert(lines_with_prefix(b, p) =~= Seq::<Seq<char>>::empty());
        assert(lines_with_prefix(a, p) + lines_with_prefix(b, p) =~= lines_with_prefix(a, p));
    } else {
        lemma_prefix_lines_concat(a, b.drop_last(), p);
        assert((a + b).drop_last() =~= a + b.drop_last());
        assert((a + b).last() == b.last());
        if starts_with(b.last(), p) {
            assert(lines_with_prefix(a, p) + lines_with_prefix(b, p) =~= (lines_with_prefix(a, p)
                + lines_with_prefix(b.drop_last(), p)).push(b.last()));
        } else {
            assert(lines_with_prefix(a, p) + lines_with_prefix(b, p) =~= lines_with_prefix(a, p)
                + lines_with_prefix(b.drop_last(), p));
        }
    }
}

/// No line of `b` begins with `p`: none is selected.
proof fn lemma_prefix_lines_none(b: Seq<Seq<char>>, p: Seq<char>)
    requires
        forall|j: int| 0 <= j < b.len() ==> !starts_with(#[trigger] b[j], p),
    ensures
        lines_with_prefix(b, p) == Seq::<Seq<char>>::empty(),
    decreases b.len(),
{
    if b.len() > 0 {
        assert(forall|j: int| 0 <= j < b.drop_last().len() ==> b.drop_last()[j] == b[j]);
        lemma_prefix_lines_none(b.drop_last(), p);
        assert(!starts_with(b[b.len() - 1], p));
    }
}

/// Appending clean lines keeps the history consistent.
proof fn lemma_append_clean(s: SimState, l: Seq<Seq<char>>)
    requires
        consistent(s),
        clean_lines(l),
    ensures
        consistent(with_lines(s, l)),
{
    let t = with_lines(s, l);
    let h = s.history;
    lemma_prefix_lines_concat(h, l, "assistant:"@);
    lemma_prefix_lines_concat(h, l, "<reasoning> "@);
    lemma_prefix_lines_none(l, "assistant:"@);
    lemma_prefix_lines_none(l, "<reasoning> "@);
    assert(lines_with_prefix(h, "assistant:"@) + Seq::<Seq<char>>::empty() =~= lines_with_prefix(
        h,
        "assistant:"@,
    ));
    assert(lines_with_prefix(h, "<reasoning> "@) + Seq::<Seq<char>>::empty() =~= lines_with_prefix(
        h,
        "<reasoning> "@,
    ));
    assert forall|i: int| 0 <= i < t.history.len() implies !is_artefact(#[trigger] t.history[i]) by {
        if i >= h.len() {
            assert(t.history[i] == l[i - h.len()]);
        }
    }
    assert forall|i: int| 0 <= i < t.history.len() implies !#[trigger] header_unfollowed(
        t.history,
        i,
    ) by {
        if i < h.len() {
            assert(!header_unfollowed(h, i));
            if is_output_header(h[i]) {
                assert(i + 1 < h.len());
                assert(t.history[i + 1] == h[i + 1]);
            }
        } else {
            let j = i - h.len();
            assert(t.history[i] == l[j]);
            assert(!header_unfollowed(l, j));
            if is_output_header(l[j]) {
                assert(t.history[i + 1] == l[j + 1]);
            }
        }
    }
}

/// A single safe line is clean.
proof fn lemma_safe_clean(line: Seq<char>)
    requires
        safe_line(line),
    ensures
        clean_lines(seq![line]),
{
    lemma_safe_line(line);
}

/// Appending a safe line keeps the history consistent.
proof fn lemma_push_safe(s: SimState, line: Seq<char>)
    requires
        consistent(s),
        safe_line(line),
    ensures
        consistent(with_line(s, line)),
{
    lemma_safe_clean(line);
    lemma_append_clean(s, seq![line]);
    assert(s.history + seq![line] =~= s.history.push(line));
    assert(with_lines(s, seq![line]) == with_line(s, line));
}

/// A line for `prefix` + `payload`, where the other checked prefix and the
/// artefact and header forms cannot match.
proof fn lemma_push_turn(s: SimState, line: Seq<char>, p: Seq<char>, q: Seq<char>)
    requires
        consistent(s),
        starts_with(line, p),
        !starts_with(line, q),
        !is_artefact(line),
        !is_output_header(line),
        (p == "assistant:"@ && q == "<reasoning> "@) || (p == "<reasoning> "@ && q
            == "assistant:"@),
    ensures
        lines_with_prefix(s.history.push(line), p) == lines_with_prefix(s.history, p).push(line),
        lines_with_prefix(s.history.push(line), q) == lines_with_prefix(s.history, q),
        forall|i: int|
            0 <= i < s.history.push(line).len() ==> !is_artefact(#[trigger] s.history.push(line)[i]),
        forall|i: int|
            0 <= i < s.history.push(line).len() ==> !#[trigger] header_unfollowed(
                s.history.push(line),
                i,
            ),
{
    let h = s.history;
    let g = h.push(line);
    assert(g.drop_last() =~= h);
    assert forall|i: int| 0 <= i < g.len() implies !#[trigger] header_unfollowed(g, i) by {
        if i < h.len() {
            assert(!header_unfollowed(h, i));
            if is_output_header(h[i]) {
                assert(g[i + 1] == h[i + 1]);
            }
        }
    }
    assert forall|i: int| 0 <= i < g.len() implies !is_artefact(#[trigger] g[i]) by {
        if i < h.len() {
            assert(g[i] == h[i]);
        }
    }
}

proof fn lemma_flush_answer(s: SimState)
    requires
        consistent(s),
    ensures
        consistent(flush_answer(s)),
{
    lemma_literals();
    let line = "assistant: "@ + s.answer_buf;
    assert(line.subrange(0, 10) =~= "assistant:"@);
    assert(line[0] == 'a');
    if starts_with(line, "<reasoning> "@) {
        assert(line.subrange(0, 12)[0] == line[0]);
    }
    if starts_with(line, "┌"@) {
        assert(line.subrange(0, 1)[0] == line[0]);
    }
    lemma_push_turn(s, line, "assistant:"@, "<reasoning> "@);
    lemma_strip_line("assistant: "@, s.answer_buf);
    let t = flush_answer(s);
    let pa = lines_with_prefix(s.history, "assistant:"@);
    assert forall|i: int| 0 <= i < t.answered_turns.len() implies strip_prefix_or_self(
        #[trigger] pa.push(line)[i],
        "assistant: "@,
    ) == t.answered_turns[i] by {
        if i < pa.len() {
            assert(strip_prefix_or_self(pa[i], "assistant: "@) == s.answered_turns[i]);
        }
    }
}

proof fn lemma_flush_reasoning(s: SimState)
    requires
        consistent(s),
    ensures
        consistent(flush_reasoning(s)),
{
    lemma_literals();
    let line = "<reasoning> "@ + s.reasoning_buf;
    assert(line.subrange(0, 12) =~= "<reasoning> "@);
    assert(line[0] == '<');
    if starts_with(line, "assistant:"@) {
        assert(line.subrange(0, 10)[0] == line[0]);
    }
    if starts_with(line, "┌"@) {
        assert(line.subrange(0, 1)[0] == line[0]);
    }
    lemma_push_turn(s, line, "<reasoning> "@, "assistant:"@);
    lemma_strip_line("<reasoning> "@, s.reasoning_buf);
    let t = flush_reasoning(s);
    let pr = lines_with_prefix(s.history, "<reasoning> "@);
    assert forall|i: int| 0 <= i < t.reasoning_turns.len() implies strip_prefix_or_self(
        #[trigger] pr.push(line)[i],
        "<reasoning> "@,
    ) == t.reasoning_turns[i] by {
        if i < pr.len() {
            assert(strip_prefix_or_self(pr[i], "<reasoning> "@) == s.reasoning_turns[i]);
        }
    }
}

/// Each line the simulation builds from a literal prefix is safe.
proof fn lemma_built_lines_safe(s: SimState, ev: SimEvent)
    ensures
        ev matches SimEvent::UserInput(t) ==> safe_line("you: "@ + t@),
        safe_line("you: "@ + s.composer),
        ev matches SimEvent::ApprovalRequestExec { id, command } ==> safe_line(
            exec_request_line(id@, command.deep_view()),
        ),
        ev matches SimEvent::ApprovalRequestPatch { id, file_count } ==> safe_line(
            patch_request_line(id@, file_count as nat),
        ),
        s.pending.len() > 0 ==> safe_line(decision_line(s.pending[0], true)) && safe_line(
            decision_line(s.pending[0], false),
        ),
        ev matches SimEvent::PatchApplyBegin { id, file_count, auto } ==> safe_line(
            patch_begin_line(id@, file_count as nat, auto),
        ),
        safe_line("[task] complete"@),
{
    reveal_strlit("you: ");
    reveal_strlit("[approval:exec] id=");
    reveal_strlit("[approval:patch] id=");
    reveal_strlit("[approval] ");
    reveal_strlit("[patch] applying id=");
    reveal_strlit("[task] complete");
    match ev {
        SimEvent::UserInput(t) => {
            let l = "you: "@ + t@;
            assert(l[0] == 'y');
        },
        SimEvent::ApprovalRequestExec { id, command } => {
            let l = exec_request_line(id@, command.deep_view());
            assert(l[0] == '[' && l[1] == 'a');
        },
        SimEvent::ApprovalRequestPatch { id, file_count } => {
            let l = patch_request_line(id@, file_count as nat);
            assert(l[0] == '[' && l[1] == 'a');
        },
        SimEvent::PatchApplyBegin { id, file_count, auto } => {
            let l = patch_begin_line(id@, file_count as nat, auto);
            assert(l[0] == '[' && l[1] == 'p');
        },
        _ => {},
    }
    let l = "you: "@ + s.composer;
    assert(l[0] == 'y');
    if s.pending.len() > 0 {
        let a = decision_line(s.pending[0], true);
        let d = decision_line(s.pending[0], false);
        assert(a[0] == '[' && a[1] == 'a');
        assert(d[0] == '[' && d[1] == 'a');
    }
}

/// One well-formed event keeps a consistent state consistent.
pub proof fn lemma_step_consistent(s: SimState, ev: SimEvent)
    requires
        consistent(s),
        well_formed_event(ev),
    ensures
        consistent(step(s, ev)),
{
    lemma_built_lines_safe(s, ev);
    match ev {
        SimEvent::UserInput(t) => {
            lemma_push_safe(s, "you: "@ + t@);
        },
        SimEvent::AssistantFinal(m) => {
            lemma_flush_answer(SimState { answer_buf: s.answer_buf + m@, ..s });
        },
        SimEvent::ReasoningFinal(m) => {
            lemma_flush_reasoning(SimState { reasoning_buf: s.reasoning_buf + m@, ..s });
        },
        SimEvent::ApprovalRequestExec { id, command } => {
            lemma_push_safe(s, exec_request_line(id@, command.deep_view()));
        },
        SimEvent::ApprovalRequestPatch { id, file_count } => {
            lemma_push_safe(s, patch_request_line(id@, file_count as nat));
        },
        SimEvent::ApprovalDecisionYes => {
            if s.pending.len() > 0 {
                lemma_push_safe(s, decision_line(s.pending[0], true));
            }
        },
        SimEvent::ApprovalDecisionNo => {
            if s.pending.len() > 0 {
                lemma_push_safe(s, decision_line(s.pending[0], false));
            }
        },
        SimEvent::ComposerSubmit => {
            if s.composer.len() > 0 {
                lemma_push_safe(s, "you: "@ + s.composer);
            }
        },
        SimEvent::PatchApplyBegin { id, file_count, auto } => {
            lemma_push_safe(s, patch_begin_line(id@, file_count as nat, auto));
        },
        SimEvent::PatchApplyEnd { id, success, stdout, stderr } => {
            lemma_append_clean(s, patch_end_lines(id@, success, stdout@, stderr@));
        },
        SimEvent::AppendBlock { header, body } => {
            lemma_append_clean(s, block_lines(header@, body@));
        },
        SimEvent::BuggyAssistantFinal(_) => {},
        SimEvent::TaskComplete => {
            let s1 = if s.answer_buf.len() > 0 {
                flush_answer(s)
            } else {
                s
            };
            if s.answer_buf.len() > 0 {
                lemma_flush_answer(s);
            }
            let s2 = if s1.reasoning_buf.len() > 0 {
                flush_reasoning(s1)
            } else {
                s1
            };
            if s1.reasoning_buf.len() > 0 {
                lemma_flush_reasoning(s1);
            }
            lemma_push_safe(s2, "[task] complete"@);
        },
        _ => {},
    }
}

/// Taking `q` off `q + t` gives back `t`.
proof fn lemma_strip_line(q: Seq<char>, t: Seq<char>)
    ensures
        strip_prefix_or_self(q + t, q) == t,
{
    let l = q + t;
    assert(l.subrange(0, q.len() as int) =~= q);
    assert(l.subrange(q.len() as int, l.len() as int) =~= t);
}

/// No mismatch from `from` on exactly when every pair from `from` on matches.
proof fn lemma_first_mismatch(e: Seq<Seq<char>>, p: Seq<Seq<char>>, q: Seq<char>, from: nat)
    requires
        e.len() == p.len(),
    ensures
        first_mismatch(e, p, q, from) is None <==> forall|i: int|
            from <= i < e.len() ==> strip_prefix_or_self(#[trigger] p[i], q) == e[i],
    decreases e.len() - from,
{
    if from < e.len() {
        lemma_first_mismatch(e, p, q, from + 1);
        if first_mismatch(e, p, q, from) is None {
            assert forall|i: int| from <= i < e.len() implies strip_prefix_or_self(
                #[trigger] p[i],
                q,
            ) == e[i] by {
                if i > from {
                }
            }
        }
    }
}

/// A state passes every check of the report exactly when it is consistent.
pub proof fn lemma_report_ok_iff_consistent(s: SimState)
    ensures
        invariant_report(s) == Ok::<(), Seq<char>>(()) <==> consistent(s),
{
    let pa = lines_with_prefix(s.history, "assistant:"@);
    let pr = lines_with_prefix(s.history, "<reasoning> "@);
    if pa.len() == s.answered_turns.len() {
        lemma_first_mismatch(s.answered_turns, pa, "assistant: "@, 0);
    }
    if pr.len() == s.reasoning_turns.len() {
        lemma_first_mismatch(s.reasoning_turns, pr, "<reasoning> "@, 0);
    }
}

/// A consistent state passes every check of the report.
pub proof fn lemma_consistent_report_ok(s: SimState)
    requires
        consistent(s),
    ensures
        invariant_report(s) == Ok::<(), Seq<char>>(()),
{
    lemma_report_ok_iff_consistent(s);
}

/// A fresh simulation is consistent.
pub proof fn lemma_empty_consistent(width: nat)
    ensures
        consistent(empty_state(width)),
{
    let s = empty_state(width);
}

/// Some line of `b` begins with `p`: at least one is selected.
proof fn lemma_prefix_lines_some(b: Seq<Seq<char>>, p: Seq<char>, j: int)
    requires
        0 <= j < b.len(),
        starts_with(b[j], p),
    ensures
        lines_with_prefix(b, p).len() > 0,
    decreases b.len(),
{
    if j < b.len() - 1 {
        assert(b.drop_last()[j] == b[j]);
        lemma_prefix_lines_some(b.drop_last(), p, j);
        lemma_prefix_lines_len(b, p);
    }
}

proof fn lemma_prefix_lines_len(b: Seq<Seq<char>>, p: Seq<char>)
    requires
        b.len() > 0,
    ensures
        lines_with_prefix(b, p).len() >= lines_with_prefix(b.drop_last(), p).len(),
{
}

/// Law: the well-formedness condition is exactly what consistency needs: from
/// a consistent state, an event that copies lines which are not clean always
/// leaves the history inconsistent.
pub proof fn law_ill_formed_event_breaks_consistency(s: SimState, ev: SimEvent)
    requires
        consistent(s),
        !well_formed_event(ev),
    ensures
        !consistent(step(s, ev)),
{
    let l = match ev {
        SimEvent::AppendBlock { header, body } => block_lines(header@, body@),
        SimEvent::PatchApplyEnd { id, success, stdout, stderr } => patch_end_lines(
            id@,
            success,
            stdout@,
            stderr@,
        ),
        _ => Seq::empty(),
    };
    assert(step(s, ev) == with_lines(s, l));
    let h = s.history;
    let g = h + l;
    let j = choose|j: int|
        0 <= j < l.len() && !{
            &&& !starts_with(#[trigger] l[j], "assistant:"@)
            &&& !starts_with(l[j], "<reasoning> "@)
            &&& !is_artefact(l[j])
            &&& !header_unfollowed(l, j)
        };
    assert(g[h.len() + j] == l[j]);
    if starts_with(l[j], "assistant:"@) {
        lemma_prefix_lines_concat(h, l, "assistant:"@);
        lemma_prefix_lines_some(l, "assistant:"@, j);
    } else if starts_with(l[j], "<reasoning> "@) {
        lemma_prefix_lines_concat(h, l, "<reasoning> "@);
        lemma_prefix_lines_some(l, "<reasoning> "@, j);
    } else if is_artefact(l[j]) {
        assert(is_artefact(g[h.len() + j]));
    } else {
        if j + 1 < l.len() {
            assert(g[h.len() + j + 1] == l[j + 1]);
        }
        assert(header_unfollowed(g, h.len() + j));
    }
}

/// Running well-formed events from a consistent state stays consistent.
pub proof fn lemma_run_consistent(s: SimState, evs: Seq<SimEvent>)
    requires
        consistent(s),
        forall|i: int| 0 <= i < evs.len() ==> well_formed_event(#[trigger] evs[i]),
    ensures
        consistent(run(s, evs)),
    decreases evs.len(),
{
    if evs.len() > 0 {
        assert(forall|i: int|
            0 <= i < evs.drop_last().len() ==> evs.drop_last()[i] == evs[i]);
        lemma_run_consistent(s, evs.drop_last());
        lemma_step_consistent(run(s, evs.drop_last()), evs.last());
    }
}

/// Law: from any state that passes every check of `assert_invariants`, a
/// well-formed event leads to a state that passes them too.
pub proof fn law_report_ok_preserved(s: SimState, ev: SimEvent)
    requires
        invariant_report(s) == Ok::<(), Seq<char>>(()),
        well_formed_event(ev),
    ensures
        invariant_report(step(s, ev)) == Ok::<(), Seq<char>>(()),
{
    lemma_report_ok_iff_consistent(s);
    lemma_step_consistent(s, ev);
    lemma_report_ok_iff_consistent(step(s, ev));
}

/// Law: whatever well-formed events a simulation is given, from any pane
/// width, every check of `assert_invariants` passes afterwards.
pub proof fn law_invariants_hold(width: nat, evs: Seq<SimEvent>)
    requires
        forall|i: int| 0 <= i < evs.len() ==> well_formed_event(#[trigger] evs[i]),
    ensures
        invariant_report(run(empty_state(width), evs)) == Ok::<(), Seq<char>>(()),
{
    lemma_empty_consistent(width);
    lemma_run_consistent(empty_state(width), evs);
    lemma_consistent_report_ok(run(empty_state(width), evs));
}


/// Law: in a consistent state the transcript splits at its first
/// `--BOTTOM--` line: every line before it is a history line, in order, and
/// the bottom pane follows it.
pub proof fn law_transcript_splits_at_marker(s: SimState)
    requires
        consistent(s),
    ensures
        transcript(s)[s.history.len() as int] == "--BOTTOM--"@,
        forall|i: int| 0 <= i < s.history.len() ==> #[trigger] transcript(s)[i] == s.history[i]
            && transcript(s)[i] != "--BOTTOM--"@,
        transcript(s).skip(s.history.len() as int + 1) == s.bottom,
{
    let t = transcript(s);
    assert forall|i: int| 0 <= i < s.history.len() implies #[trigger] t[i] == s.history[i]
        && t[i] != "--BOTTOM--"@ by {
        assert(!is_artefact(s.history[i]));
    }
    assert(t.skip(s.history.len() as int + 1) =~= s.bottom);
}

// ---------------------------------------------------------------------------
// History is append-only.
// ---------------------------------------------------------------------------

proof fn lemma_prefix_trans(a: Seq<Seq<char>>, b: Seq<Seq<char>>, c: Seq<Seq<char>>)
    requires
        a.is_prefix_of(b),
        b.is_prefix_of(c),
    ensures
        a.is_prefix_of(c),
{
    assert(a =~= c.subrange(0, a.len() as int)) by {
        assert forall|i: int| 0 <= i < a.len() implies a[i] == c.subrange(0, a.len() as int)[i] by {
            assert(a[i] == b.subrange(0, a.len() as int)[i]);
            assert(b[i] == c.subrange(0, b.len() as int)[i]);
        }
    }
}

proof fn lemma_extends(a: Seq<Seq<char>>, b: Seq<Seq<char>>)
    ensures
        a.is_prefix_of(a + b),
{
    assert(a =~= (a + b).subrange(0, a.len() as int));
}

proof fn lemma_push_extends(a: Seq<Seq<char>>, l: Seq<char>)
    ensures
        a.is_prefix_of(a.push(l)),
{
    assert(a =~= a.push(l).subrange(0, a.len() as int));
}

/// Law: no event removes or changes a history line; the history before an
/// event is a prefix of the history after it.
pub proof fn law_history_append_only(s: SimState, ev: SimEvent)
    ensures
        s.history.is_prefix_of(step(s, ev).history),
{
    assert(s.history =~= s.history.subrange(0, s.history.len() as int));
    match ev {
        SimEvent::UserInput(t) => lemma_push_extends(s.history, "you: "@ + t@),
        SimEvent::AssistantFinal(m) => lemma_push_extends(
            s.history,
            "assistant: "@ + (s.answer_buf + m@),
        ),
        SimEvent::ReasoningFinal(m) => lemma_push_extends(
            s.history,
            "<reasoning> "@ + (s.reasoning_buf + m@),
        ),
        SimEvent::ApprovalRequestExec { id, command } => lemma_push_extends(
            s.history,
            exec_request_line(id@, command.deep_view()),
        ),
        SimEvent::ApprovalRequestPatch { id, file_count } => lemma_push_extends(
            s.history,
            patch_request_line(id@, file_count as nat),
        ),
        SimEvent::ApprovalDecisionYes => {
            if s.pending.len() > 0 {
                lemma_push_extends(s.history, decision_line(s.pending[0], true));
            }
        },
        SimEvent::ApprovalDecisionNo => {
            if s.pending.len() > 0 {
                lemma_push_extends(s.history, decision_line(s.pending[0], false));
            }
        },
        SimEvent::ComposerSubmit => lemma_push_extends(s.history, "you: "@ + s.composer),
        SimEvent::PatchApplyBegin { id, file_count, auto } => lemma_push_extends(
            s.history,
            patch_begin_line(id@, file_count as nat, auto),
        ),
        SimEvent::PatchApplyEnd { id, success, stdout, stderr } => lemma_extends(
            s.history,
            patch_end_lines(id@, success, stdout@, stderr@),
        ),
        SimEvent::AppendBlock { header, body } => lemma_extends(
            s.history,
            block_lines(header@, body@),
        ),
        SimEvent::BuggyAssistantFinal(_) => {},
        SimEvent::TaskComplete => {
            let s1 = if s.answer_buf.len() > 0 {
                flush_answer(s)
            } else {
                s
            };
            let s2 = if s1.reasoning_buf.len() > 0 {
                flush_reasoning(s1)
            } else {
                s1
            };
            lemma_push_extends(s.history, "assistant: "@ + s.answer_buf);
            lemma_push_extends(s1.history, "<reasoning> "@ + s1.reasoning_buf);
            lemma_push_extends(s2.history, "[task] complete"@);
            assert(s.history.is_prefix_of(s1.history));
            assert(s1.history.is_prefix_of(s2.history));
            lemma_prefix_trans(s.history, s1.history, s2.history);
            lemma_prefix_trans(s.history, s2.history, s2.history.push("[task] complete"@));
        },
        _ => {},
    }
}

/// Law: over any run of events the history only grows at its end.
pub proof fn law_history_append_only_run(s: SimState, evs: Seq<SimEvent>)
    ensures
        s.history.is_prefix_of(run(s, evs).history),
    decreases evs.len(),
{
    if evs.len() == 0 {
        assert(s.history =~= s.history.subrange(0, s.history.len() as int));
    } else {
        law_history_append_only_run(s, evs.drop_last());
        law_history_append_only(run(s, evs.drop_last()), evs.last());
        lemma_prefix_trans(s.history, run(s, evs.drop_last()).history, run(s, evs).history);
    }
}

// ---------------------------------------------------------------------------
// The bottom pane.
// ---------------------------------------------------------------------------

/// Law: redrawing replaces the bottom pane and changes nothing else, so the
/// history is the same before and after.
pub proof fn law_redraw_changes_only_bottom(s: SimState)
    ensures
        step(s, SimEvent::RedrawBottom) == (SimState { bottom: render_bottom(s), ..s }),
        step(s, SimEvent::RedrawBottom).history == s.history,
{
}

/// Law: the bottom pane that a redraw draws depends only on the width, the
/// composer text, the token counters and the number of pending requests; in
/// particular a second redraw changes nothing.
pub proof fn law_redraw_depends_only_on_pane_inputs(s1: SimState, s2: SimState)
    requires
        s1.width == s2.width,
        s1.composer == s2.composer,
        s1.token_usage == s2.token_usage,
        s1.pending.len() == s2.pending.len(),
    ensures
        step(s1, SimEvent::RedrawBottom).bottom == step(s2, SimEvent::RedrawBottom).bottom,
        step(step(s1, SimEvent::RedrawBottom), SimEvent::RedrawBottom) == step(
            s1,
            SimEvent::RedrawBottom,
        ),
{
}

/// Law: an assistant line drawn inside the bottom pane is shown there until
/// the next redraw, which wipes it out; the history never holds it.
pub proof fn law_pane_line_lost_on_redraw(s: SimState, t: String)
    ensures
        step(s, SimEvent::BuggyAssistantFinal(t)) == (SimState {
            bottom: s.bottom.push("assistant(ephemeral): "@ + t@),
            ..s
        }),
        step(s, SimEvent::BuggyAssistantFinal(t)).history == s.history,
        step(step(s, SimEvent::BuggyAssistantFinal(t)), SimEvent::RedrawBottom) == step(
            s,
            SimEvent::RedrawBottom,
        ),
{
}

/// Law: typing adds the text at the end of the composer and changes nothing
/// else.
pub proof fn law_typing_appends(s: SimState, t: String)
    ensures
        step(s, SimEvent::ComposerInsert(t)) == (SimState { composer: s.composer + t@, ..s }),
{
}

/// One `ComposerInsert` per piece of text, in order.
pub open spec fn insert_events(pieces: Seq<String>) -> Seq<SimEvent> {
    pieces.map_values(|t: String| SimEvent::ComposerInsert(t))
}

/// The pieces of text one after the other.
pub open spec fn concat(pieces: Seq<String>) -> Seq<char>
    decreases pieces.len(),
{
    if pieces.len() == 0 {
        Seq::empty()
    } else {
        concat(pieces.drop_last()) + pieces.last()@
    }
}

proof fn lemma_inserts(s: SimState, pieces: Seq<String>)
    ensures
        run(s, insert_events(pieces)) == (SimState { composer: s.composer + concat(pieces), ..s }),
    decreases pieces.len(),
{
    if pieces.len() == 0 {
        assert(s.composer + concat(pieces) =~= s.composer);
        assert(run(s, insert_events(pieces)) == s);
    } else {
        lemma_inserts(s, pieces.drop_last());
        assert(insert_events(pieces).drop_last() =~= insert_events(pieces.drop_last()));
        assert(s.composer + concat(pieces.drop_last()) + pieces.last()@ =~= s.composer + concat(
            pieces,
        ));
    }
}

/// Law: submitting after typing pieces of text prints everything typed, in
/// order, as one `you: ` line, and empties the composer; an empty composer
/// submits nothing.
pub proof fn law_submit_prints_all_typed(s: SimState, pieces: Seq<String>)
    ensures
        ({
            let typed = s.composer + concat(pieces);
            let s2 = step(run(s, insert_events(pieces)), SimEvent::ComposerSubmit);
            &&& typed.len() > 0 ==> s2 == (SimState {
                history: s.history.push("you: "@ + typed),
                composer: Seq::empty(),
                ..s
            })
            &&& typed.len() == 0 ==> s2 == s
        }),
{
    lemma_inserts(s, pieces);
    if s.composer.len() + concat(pieces).len() == 0 {
        assert(s.composer + concat(pieces) =~= s.composer);
    }
}

/// Law: events that only touch the bottom pane or the buffers (resizing,
/// token usage, composer typing, redraws, deltas, a line drawn inside the
/// pane) leave the history and the recorded turns as they were.
pub proof fn law_pane_events_keep_history(s: SimState, ev: SimEvent)
    requires
        ev is RedrawBottom || ev is SetWidth || ev is TokenUsage || ev is ComposerInsert
            || ev is AssistantDelta || ev is ReasoningDelta || ev is BuggyAssistantFinal,
    ensures
        step(s, ev).history == s.history,
        step(s, ev).answered_turns == s.answered_turns,
        step(s, ev).reasoning_turns == s.reasoning_turns,
        step(s, ev).pending == s.pending,
{
}

/// Law: a token usage update only changes the counters, and the next redraw
/// shows them on the status line, the last line of the bottom pane.
pub proof fn law_token_usage_only_in_bottom(s: SimState, input: u32, output: u32, total: u32)
    ensures
        step(s, SimEvent::TokenUsage { input, output, total }) == (SimState {
            token_usage: (input, output, total),
            ..s
        }),
        step(step(s, SimEvent::TokenUsage { input, output, total }), SimEvent::RedrawBottom).bottom.last()
            == "tok in:"@ + decimal(input as nat) + " out:"@ + decimal(output as nat) + " total:"@
            + decimal(total as nat) + " approvals:"@ + decimal(s.pending.len()),
{
}

// ---------------------------------------------------------------------------
// Streaming turns.
// ---------------------------------------------------------------------------

/// Law: deltas are only buffered; the history does not change.
pub proof fn law_deltas_buffered(s: SimState, d: String)
    ensures
        step(s, SimEvent::AssistantDelta(d)).history == s.history,
        step(s, SimEvent::AssistantDelta(d)).answer_buf == s.answer_buf + d@,
        step(s, SimEvent::ReasoningDelta(d)).history == s.history,
        step(s, SimEvent::ReasoningDelta(d)).reasoning_buf == s.reasoning_buf + d@,
{
}

/// Law: a final event appends exactly one history line, holding everything
/// buffered followed by the final text, records that turn, and empties the
/// buffer.
pub proof fn law_final_appends_one_line(s: SimState, m: String)
    ensures
        step(s, SimEvent::AssistantFinal(m)).history == s.history.push(
            "assistant: "@ + s.answer_buf + m@,
        ),
        step(s, SimEvent::AssistantFinal(m)).answered_turns == s.answered_turns.push(
            s.answer_buf + m@,
        ),
        step(s, SimEvent::AssistantFinal(m)).answer_buf.len() == 0,
        step(s, SimEvent::ReasoningFinal(m)).history == s.history.push(
            "<reasoning> "@ + s.reasoning_buf + m@,
        ),
        step(s, SimEvent::ReasoningFinal(m)).reasoning_turns == s.reasoning_turns.push(
            s.reasoning_buf + m@,
        ),
        step(s, SimEvent::ReasoningFinal(m)).reasoning_buf.len() == 0,
{
    assert("assistant: "@ + (s.answer_buf + m@) =~= "assistant: "@ + s.answer_buf + m@);
    assert("<reasoning> "@ + (s.reasoning_buf + m@) =~= "<reasoning> "@ + s.reasoning_buf + m@);
}

/// Law: completing a task prints whatever is still buffered (the answer
/// first, then the reasoning) and then the completion line.
pub proof fn law_task_complete_flushes(s: SimState)
    ensures
        step(s, SimEvent::TaskComplete).history == s.history + (if s.answer_buf.len() > 0 {
            seq!["assistant: "@ + s.answer_buf]
        } else {
            Seq::empty()
        }) + (if s.reasoning_buf.len() > 0 {
            seq!["<reasoning> "@ + s.reasoning_buf]
        } else {
            Seq::empty()
        }) + seq!["[task] complete"@],
        step(s, SimEvent::TaskComplete).answer_buf.len() == 0,
        step(s, SimEvent::TaskComplete).reasoning_buf.len() == 0,
{
    let t = step(s, SimEvent::TaskComplete);
    assert(t.history =~= s.history + (if s.answer_buf.len() > 0 {
        seq!["assistant: "@ + s.answer_buf]
    } else {
        Seq::empty()
    }) + (if s.reasoning_buf.len() > 0 {
        seq!["<reasoning> "@ + s.reasoning_buf]
    } else {
        Seq::empty()
    }) + seq!["[task] complete"@]);
}

// ---------------------------------------------------------------------------
// Approvals.
// ---------------------------------------------------------------------------

/// Law: a request joins the end of the queue and prints one line.
pub proof fn law_requests_enqueue(s: SimState, id: String, command: Vec<String>, file_count: usize)
    ensures
        step(s, SimEvent::ApprovalRequestExec { id, command }).pending == s.pending.push(
            PendingApproval::Exec { id: id@, command: command.deep_view() },
        ),
        step(s, SimEvent::ApprovalRequestExec { id, command }).history == s.history.push(
            exec_request_line(id@, command.deep_view()),
        ),
        step(s, SimEvent::ApprovalRequestPatch { id, file_count }).pending == s.pending.push(
            PendingApproval::Patch { id: id@, file_count: file_count as nat },
        ),
        step(s, SimEvent::ApprovalRequestPatch { id, file_count }).history == s.history.push(
            patch_request_line(id@, file_count as nat),
        ),
{
}

/// Law: a decision answers the oldest pending request (first in, first
/// out), prints exactly one line for it and removes it from the queue; with
/// nothing pending it changes nothing.
pub proof fn law_decisions_fifo(s: SimState, approved: bool)
    ensures
        ({
            let ev = if approved {
                SimEvent::ApprovalDecisionYes
            } else {
                SimEvent::ApprovalDecisionNo
            };
            if s.pending.len() > 0 {
                &&& step(s, ev).history == s.history.push(decision_line(s.pending[0], approved))
                &&& step(s, ev).pending == s.pending.drop_first()
            } else {
                step(s, ev) == s
            }
        }),
{
}

/// Answering `k` requests in a row answers the `k` oldest, in queue order.
pub open spec fn decisions(n: nat, approved: bool) -> Seq<SimEvent>
    decreases n,
{
    if n == 0 {
        Seq::empty()
    } else {
        decisions((n - 1) as nat, approved).push(
            if approved {
                SimEvent::ApprovalDecisionYes
            } else {
                SimEvent::ApprovalDecisionNo
            },
        )
    }
}

/// Law: `k` decisions in a row answer the `k` oldest pending requests in the
/// order they were made, one line each, and leave the rest queued.
pub proof fn law_decisions_in_request_order(s: SimState, k: nat, approved: bool)
    requires
        k <= s.pending.len(),
    ensures
        run(s, decisions(k, approved)).history == s.history + s.pending.take(k as int).map_values(
            |r: PendingApproval| decision_line(r, approved),
        ),
        run(s, decisions(k, approved)).pending == s.pending.skip(k as int),
    decreases k,
{
    if k == 0 {
        assert(s.pending.take(0).map_values(|r: PendingApproval| decision_line(r, approved))
            =~= Seq::<Seq<char>>::empty());
        assert(s.history + Seq::<Seq<char>>::empty() =~= s.history);
        assert(s.pending.skip(0) =~= s.pending);
    } else {
        law_decisions_in_request_order(s, (k - 1) as nat, approved);
        let evs = decisions(k, approved);
        assert(evs.drop_last() == decisions((k - 1) as nat, approved));
        let mid = run(s, decisions((k - 1) as nat, approved));
        assert(mid.pending[0] == s.pending[k - 1]);
        assert(mid.pending.drop_first() =~= s.pending.skip(k as int));
        assert(s.pending.take(k as int).map_values(|r: PendingApproval| decision_line(r, approved))
            =~= s.pending.take(k - 1).map_values(|r: PendingApproval| decision_line(r, approved)).push(
            decision_line(s.pending[k - 1], approved),
        ));
        assert(run(s, evs).history =~= s.history + s.pending.take(k as int).map_values(
            |r: PendingApproval| decision_line(r, approved),
        ));
    }
}


// ---------------------------------------------------------------------------
// Wrapping the composer.
// ---------------------------------------------------------------------------

/// The row width that wrapping actually uses: `w`, or 1 when `w` is 0.
pub open spec fn row_width(w: nat) -> nat {
    if w == 0 {
        1
    } else {
        w
    }
}

proof fn lemma_scan_wrap(p: Seq<char>, w: nat)
    ensures
        ({
            let (done, cur) = scan_wrap(p, w);
            &&& done.len() * row_width(w) + cur.len() == p.len()
            &&& cur.len() < row_width(w)
            &&& forall|i: int| 0 <= i < done.len() ==> (#[trigger] done[i]).len() == row_width(w)
            &&& done.flatten_alt() + cur == p
        }),
    decreases p.len(),
{
    if p.len() == 0 {
        let (done, cur) = scan_wrap(p, w);
        assert(done.flatten_alt() + cur =~= p);
    } else {
        lemma_scan_wrap(p.drop_last(), w);
        let (d0, c0) = scan_wrap(p.drop_last(), w);
        let row = c0.push(p.last());
        let k = row_width(w);
        assert(p =~= p.drop_last().push(p.last()));
        assert(d0.flatten_alt() + row =~= (d0.flatten_alt() + c0).push(p.last()));
        if row.len() >= w {
            let d = d0.push(row);
            assert(row.len() == k);
            assert(d.drop_last() =~= d0);
            assert(d.flatten_alt() =~= d0.flatten_alt() + row);
            assert(d.flatten_alt() + Seq::<char>::empty() =~= p);
            assert((d0.len() + 1) * k == d0.len() * k + k) by (nonlinear_arith);
        } else {
            assert(d0.flatten_alt() + row =~= p);
        }
    }
}

/// Law: wrapping cuts the composer text into rows without losing, adding or
/// reordering a character: joined, the rows give back the text; every row
/// but the last holds exactly the row width, and the last at least one and
/// at most that many characters. An empty composer gives one empty row.
pub proof fn law_wrap_rows(text: Seq<char>, w: nat)
    ensures
        text.len() == 0 ==> wrap_rows(text, w) == seq![Seq::<char>::empty()],
        text.len() > 0 ==> {
            let rows = wrap_rows(text, w);
            &&& rows.flatten() == text
            &&& rows.len() > 0
            &&& forall|i: int| 0 <= i < rows.len() - 1 ==> (#[trigger] rows[i]).len() == row_width(w)
            &&& 1 <= rows.last().len() <= row_width(w)
            &&& (rows.len() - 1) * row_width(w) + rows.last().len() == text.len()
        },
{
    if text.len() > 0 {
        lemma_scan_wrap(text, w);
        let (done, cur) = scan_wrap(text, w);
        let rows = wrap_rows(text, w);
        let k = row_width(w);
        if cur.len() > 0 {
            assert(rows.drop_last() =~= done);
            assert(rows.flatten_alt() =~= done.flatten_alt() + cur);
        } else {
            assert(done.flatten_alt() + cur =~= done.flatten_alt());
            assert(done.len() > 0) by {
                if done.len() == 0 {
                    assert(done.len() * k == 0) by (nonlinear_arith)
                        requires done.len() == 0;
                }
            }
            assert(rows.last() == done[done.len() - 1]);
            assert((done.len() - 1) * k + k == done.len() * k) by (nonlinear_arith);
        }
        rows.lemma_flatten_and_flatten_alt_are_equivalent();
    }
}

/// The number of composer rows: 1 for an empty composer, else the length
/// divided by the row width, rounded up.
pub open spec fn row_count(n: nat, w: nat) -> nat {
    if n == 0 {
        1
    } else {
        ((n + row_width(w) - 1) / (row_width(w) as int)) as nat
    }
}

proof fn lemma_row_count(text: Seq<char>, w: nat)
    ensures
        wrap_rows(text, w).len() == row_count(text.len(), w),
{
    if text.len() > 0 {
        law_wrap_rows(text, w);
        let rows = wrap_rows(text, w);
        let k = row_width(w) as int;
        let r = rows.len() as int;
        let last = rows.last().len() as int;
        let n = text.len() as int;
        assert((n + k - 1) / k == r) by (nonlinear_arith)
            requires
                k >= 1,
                1 <= last <= k,
                (r - 1) * k + last == n,
        {
            assert(n + k - 1 == (r - 1) * k + (last + k - 1));
            assert(k <= last + k - 1 < 2 * k);
            assert(n + k - 1 == r * k + (last - 1));
            assert(0 <= last - 1 < k);
        }
    }
}

/// Law: after a redraw the bottom pane holds the box top, one boxed row per
/// composer row, the box bottom and the status line, so its height is the
/// row count plus three; every line of the box is the inner width plus two
/// characters wide.
pub proof fn law_bottom_shape(s: SimState)
    ensures
        ({
            let w = inner_width(s.width);
            let b = render_bottom(s);
            &&& b.len() == row_count(s.composer.len(), w) + 3
            &&& b[0] == box_top(w)
            &&& b[b.len() - 2] == box_bottom(w)
            &&& b[b.len() - 1] == status_line(s)
            &&& forall|i: int| 0 <= i < b.len() - 1 ==> (#[trigger] b[i]).len() == w + 2
        }),
{
    let w = inner_width(s.width);
    let b = render_bottom(s);
    let rows = wrap_rows(s.composer, w);
    lemma_row_count(s.composer, w);
    reveal_strlit("┌");
    reveal_strlit("┐");
    reveal_strlit("└");
    reveal_strlit("┘");
    reveal_strlit("│");
    assert forall|i: int| 0 <= i < b.len() - 1 implies (#[trigger] b[i]).len() == w + 2 by {
        if i == 0 {
        } else if i < b.len() - 2 {
            assert(b[i] == rows.map_values(|l: Seq<char>| box_row(l, w))[i - 1]);
            assert(b[i] == box_row(rows[i - 1], w));
            let k = min_nat(rows[i - 1].len(), w);
            assert(pad_text(rows[i - 1], w).len() == k + (w - k));
        } else {
            assert(b[i] == box_bottom(w));
        }
    }
}

/// Law: narrowing the pane never gives the composer fewer rows.
pub proof fn law_narrower_never_fewer_rows(n: nat, w1: nat, w2: nat)
    requires
        w1 <= w2,
    ensures
        row_count(n, w1) >= row_count(n, w2),
{
    if n > 0 {
        let k1 = row_width(w1) as int;
        let k2 = row_width(w2) as int;
        let ni = n as int;
        assert((ni + k1 - 1) / k1 >= (ni + k2 - 1) / k2) by (nonlinear_arith)
            requires
                1 <= k1 <= k2,
                ni >= 1,
        {
            let r1 = (ni + k1 - 1) / k1;
            let r2 = (ni + k2 - 1) / k2;
            assert(r1 * k1 >= ni);
            assert((r2 - 1) * k2 < ni);
            if r1 < r2 {
                assert(r1 <= r2 - 1);
                assert(r1 * k2 <= (r2 - 1) * k2);
                assert(r1 * k1 <= r1 * k2);
            }
        }
    }
}

} // verus!
