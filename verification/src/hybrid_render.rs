//! What the append-only terminal draws: styled history lines, the approval
//! prompt, the composer box, the status line, and where on the screen the
//! bottom pane goes. All of it is computed from plain values; the terminal
//! writes are done by the caller.
use vstd::prelude::*;

use crate::hybrid_sim::{box_bottom, box_top};
use crate::text::{
    chars_of, debug_list, decimal, lines, lines_of, push_chars, push_debug_list, push_decimal,
    push_repeat, push_str, repeat_char, string_of, strings_of, texts,
};

verus! {

pub const RESET: &'static str = "\x1b[0m";
pub const BOLD: &'static str = "\x1b[1m";
pub const DIM: &'static str = "\x1b[2m";
pub const FG_CYAN: &'static str = "\x1b[36m";
pub const FG_GREEN: &'static str = "\x1b[32m";
pub const FG_YELLOW: &'static str = "\x1b[33m";
pub const FG_MAGENTA: &'static str = "\x1b[35m";

/// Blank rows kept above the input box so streamed history is not drawn over.
pub const RESERVED_INPUT_BUFFER: u16 = 4;

// ---------------------------------------------------------------------------
// Cutting and padding.
// ---------------------------------------------------------------------------

/// The first `width` characters of `s` (all of `s` when it is shorter).
pub open spec fn truncated(s: Seq<char>, width: nat) -> Seq<char> {
    if s.len() <= width {
        s
    } else {
        s.take(width as int)
    }
}

/// `s` cut or filled with spaces to exactly `width` characters.
pub open spec fn padded(s: Seq<char>, width: nat) -> Seq<char> {
    if s.len() >= width {
        truncated(s, width)
    } else {
        s + repeat_char(' ', (width - s.len()) as nat)
    }
}

/// `s` cut to at most `width` characters.
pub fn truncate_chars(s: &Vec<char>, width: usize) -> (r: Vec<char>)
    ensures
        r@ == truncated(s@, width as nat),
{
    let mut r: Vec<char> = Vec::new();
    let n = if s.len() <= width { s.len() } else { width };
    for i in 0..n
        invariant
            n <= s.len(),
            r@ == s@.take(i as int),
    {
        r.push(s[i]);
        assert(s@.take(i + 1) == s@.take(i as int).push(s@[i as int]));
    }
    assert(s@.take(s.len() as int) == s@);
    r
}

/// `s` cut to at most `width` characters.
pub fn truncate_str(s: &str, width: usize) -> (r: String)
    ensures
        r@ == truncated(s@, width as nat),
{
    let c = chars_of(s);
    let t = truncate_chars(&c, width);
    string_of(&t)
}

/// `s` cut or filled with spaces to exactly `width` characters.
pub fn pad_chars(s: &Vec<char>, width: usize) -> (r: Vec<char>)
    ensures
        r@ == padded(s@, width as nat),
{
    if s.len() >= width {
        truncate_chars(s, width)
    } else {
        let mut r = s.clone();
        push_repeat(&mut r, ' ', width - s.len());
        r
    }
}

/// `s` cut or filled with spaces to exactly `width` characters.
pub fn pad_str(s: &str, width: usize) -> (r: String)
    ensures
        r@ == padded(s@, width as nat),
{
    let c = chars_of(s);
    let p = pad_chars(&c, width);
    string_of(&p)
}

// ---------------------------------------------------------------------------
// Colours.
// ---------------------------------------------------------------------------

pub open spec fn styled(code: Seq<char>, s: Seq<char>) -> Seq<char> {
    code + s + RESET@
}

/// `s` in yellow.
pub fn color_yellow(s: &str) -> (r: String)
    ensures
        r@ == styled(FG_YELLOW@, s@),
{
    let mut v = chars_of(FG_YELLOW);
    push_str(&mut v, s);
    push_str(&mut v, RESET);
    string_of(&v)
}

/// `s` in magenta.
pub fn color_magenta(s: &str) -> (r: String)
    ensures
        r@ == styled(FG_MAGENTA@, s@),
{
    let mut v = chars_of(FG_MAGENTA);
    push_str(&mut v, s);
    push_str(&mut v, RESET);
    string_of(&v)
}

/// `s` dimmed.
pub fn color_dim(s: &str) -> (r: String)
    ensures
        r@ == styled(DIM@, s@),
{
    let mut v = chars_of(DIM);
    push_str(&mut v, s);
    push_str(&mut v, RESET);
    string_of(&v)
}


// ---------------------------------------------------------------------------
// Assistant messages as lightly formatted markdown.
// ---------------------------------------------------------------------------

/// Unicode white space, as `char::is_whitespace` defines it.
pub open spec fn is_white_space(c: char) -> bool {
    let u = c as int;
    (0x9 <= u <= 0xd) || u == 0x20 || u == 0x85 || u == 0xa0 || u == 0x1680 || (0x2000 <= u
        <= 0x200a) || u == 0x2028 || u == 0x2029 || u == 0x202f || u == 0x205f || u == 0x3000
}

/// The number of white-space characters `s` begins with.
pub open spec fn leading_white(s: Seq<char>) -> nat
    decreases s.len(),
{
    if s.len() > 0 && is_white_space(s[0]) {
        1 + leading_white(s.drop_first())
    } else {
        0
    }
}

/// A line that opens or closes a code block: after leading white space it
/// begins with three backticks.
pub open spec fn is_fence(line: Seq<char>) -> bool {
    crate::text::starts_with(line.skip(leading_white(line) as int), "```"@)
}

pub open spec fn fence_line(prefix: Seq<char>, color: Seq<char>, opening: bool) -> Seq<char> {
    color + BOLD@ + prefix + RESET@ + color + ":"@ + RESET@ + " "@ + (if opening {
        BOLD@
    } else {
        DIM@
    }) + "```"@ + RESET@
}

pub open spec fn code_line(color: Seq<char>, line: Seq<char>) -> Seq<char> {
    color + DIM@ + "│"@ + RESET@ + " "@ + line
}

pub open spec fn heading_line(prefix: Seq<char>, color: Seq<char>, line: Seq<char>) -> Seq<char> {
    color + BOLD@ + prefix + RESET@ + color + ":"@ + RESET@ + " "@ + BOLD@ + line + RESET@
}

pub open spec fn text_line(prefix: Seq<char>, color: Seq<char>, line: Seq<char>) -> Seq<char> {
    color + prefix + RESET@ + ": "@ + line
}

/// Formatting the lines `ls` in order: the output so far and whether a code
/// block is open.
pub open spec fn markdown_scan(ls: Seq<Seq<char>>, prefix: Seq<char>, color: Seq<char>) -> (
    Seq<Seq<char>>,
    bool,
)
    decreases ls.len(),
{
    if ls.len() == 0 {
        (Seq::empty(), false)
    } else {
        let (out, in_code) = markdown_scan(ls.drop_last(), prefix, color);
        let line = ls.last();
        if is_fence(line) {
            (out.push(fence_line(prefix, color, !in_code)), !in_code)
        } else if in_code {
            (out.push(code_line(color, line)), in_code)
        } else if crate::text::starts_with(line, "#"@) {
            (out.push(heading_line(prefix, color, line)), in_code)
        } else {
            (out.push(text_line(prefix, color, line)), in_code)
        }
    }
}

/// One styled line per line of `text`.
pub open spec fn markdown_blocks(prefix: Seq<char>, text: Seq<char>, color: Seq<char>) -> Seq<
    Seq<char>,
> {
    markdown_scan(lines_of(text), prefix, color).0
}

fn is_white_space_char(c: char) -> (r: bool)
    ensures
        r == is_white_space(c),
{
    let u = c as u32;
    (0x9 <= u && u <= 0xd) || u == 0x20 || u == 0x85 || u == 0xa0 || u == 0x1680 || (0x2000 <= u
        && u <= 0x200a) || u == 0x2028 || u == 0x2029 || u == 0x202f || u == 0x205f || u == 0x3000
}

proof fn lemma_leading_white_skip(s: Seq<char>, i: nat)
    requires
        i <= s.len(),
        forall|j: int| 0 <= j < i ==> is_white_space(#[trigger] s[j]),
    ensures
        leading_white(s) == i + leading_white(s.skip(i as int)),
    decreases i,
{
    if i > 0 {
        assert(s.drop_first().skip(i - 1) =~= s.skip(i as int));
        lemma_leading_white_skip(s.drop_first(), (i - 1) as nat);
    } else {
        assert(s.skip(0) =~= s);
    }
}

/// Whether `line` opens or closes a code block.
fn fence(line: &Vec<char>) -> (r: bool)
    ensures
        r == is_fence(line@),
{
    let mut i: usize = 0;
    while i < line.len() && is_white_space_char(line[i])
        invariant
            i <= line.len(),
            forall|j: int| 0 <= j < i ==> is_white_space(#[trigger] line@[j]),
        decreases line.len() - i,
    {
        i = i + 1;
    }
    proof {
        lemma_leading_white_skip(line@, i as nat);
        assert(leading_white(line@.skip(i as int)) == 0);
        reveal_strlit("```");
    }
    let rest = crate::text::chars_from(line, i);
    let ticks = chars_of("```");
    crate::text::has_prefix(&rest, &ticks)
}

/// Formats an assistant message: a code fence toggles a code block, code
/// lines get a dim bar, `#` headings are bold, other lines get the prefix.
pub fn format_markdown_blocks(prefix: &str, text: &str, color: &str) -> (out: Vec<String>)
    ensures
        out.deep_view() == markdown_blocks(prefix@, text@, color@),
{
    let t = chars_of(text);
    let ls = lines(&t);
    let mut out: Vec<Vec<char>> = Vec::new();
    let mut in_code = false;
    let hash = chars_of("#");
    for i in 0..ls.len()
        invariant
            hash@ == "#"@,
            (texts(out@), in_code) == markdown_scan(texts(ls@).take(i as int), prefix@, color@),
    {
        let line = &ls[i];
        let ghost pre = texts(ls@).take(i as int);
        assert(texts(ls@).take(i + 1).drop_last() =~= pre);
        assert(texts(ls@).take(i + 1).last() == line@);
        let ghost before = texts(out@);
        let mut o: Vec<char>;
        if fence(line) {
            in_code = !in_code;
            o = chars_of(color);
            push_str(&mut o, BOLD);
            push_str(&mut o, prefix);
            push_str(&mut o, RESET);
            push_str(&mut o, color);
            push_str(&mut o, ":");
            push_str(&mut o, RESET);
            push_str(&mut o, " ");
            if in_code {
                push_str(&mut o, BOLD);
            } else {
                push_str(&mut o, DIM);
            }
            push_str(&mut o, "```");
            push_str(&mut o, RESET);
        } else if in_code {
            o = chars_of(color);
            push_str(&mut o, DIM);
            push_str(&mut o, "│");
            push_str(&mut o, RESET);
            push_str(&mut o, " ");
            push_chars(&mut o, line);
        } else if crate::text::has_prefix(line, &hash) {
            o = chars_of(color);
            push_str(&mut o, BOLD);
            push_str(&mut o, prefix);
            push_str(&mut o, RESET);
            push_str(&mut o, color);
            push_str(&mut o, ":");
            push_str(&mut o, RESET);
            push_str(&mut o, " ");
            push_str(&mut o, BOLD);
            push_chars(&mut o, line);
            push_str(&mut o, RESET);
        } else {
            o = chars_of(color);
            push_str(&mut o, prefix);
            push_str(&mut o, RESET);
            push_str(&mut o, ": ");
            push_chars(&mut o, line);
        }
        out.push(o);
        assert(texts(out@) =~= before.push(o@));
    }
    assert(texts(ls@).take(ls.len() as int) =~= texts(ls@));
    strings_of(&out)
}


// ---------------------------------------------------------------------------
// The status line.
// ---------------------------------------------------------------------------

/// The token counters shown on the status line.
#[derive(Clone, Copy, Debug)]
pub struct TokenUsage {
    pub input_tokens: u64,
    pub output_tokens: u64,
    pub total_tokens: u64,
}

/// The status line before it is cut to the terminal width: the number of
/// pending approvals (when any), the token counters and, after a first
/// Ctrl+C, how to quit; the parts joined by `" | "`.
pub open spec fn status_text(approvals: nat, usage: TokenUsage, ctrl_c_first: bool) -> Seq<char> {
    (if approvals > 0 {
        "approval pending ("@ + decimal(approvals) + ") y/n"@ + " | "@
    } else {
        Seq::empty()
    }) + "tok in:"@ + decimal(usage.input_tokens as nat) + " out:"@ + decimal(
        usage.output_tokens as nat,
    ) + " total:"@ + decimal(usage.total_tokens as nat) + (if ctrl_c_first {
        " | "@ + "press Ctrl+C again to quit"@
    } else {
        Seq::empty()
    })
}

/// The status line under the composer, at most `width` characters.
pub fn build_status_line(
    approvals: usize,
    token_usage: &TokenUsage,
    ctrl_c_first: bool,
    width: usize,
) -> (r: String)
    ensures
        r@ == truncated(status_text(approvals as nat, *token_usage, ctrl_c_first), width as nat),
{
    let mut line: Vec<char> = Vec::new();
    if approvals > 0 {
        push_str(&mut line, "approval pending (");
        push_decimal(&mut line, approvals as u64);
        push_str(&mut line, ") y/n");
        push_str(&mut line, " | ");
    }
    push_str(&mut line, "tok in:");
    push_decimal(&mut line, token_usage.input_tokens);
    push_str(&mut line, " out:");
    push_decimal(&mut line, token_usage.output_tokens);
    push_str(&mut line, " total:");
    push_decimal(&mut line, token_usage.total_tokens);
    if ctrl_c_first {
        push_str(&mut line, " | ");
        push_str(&mut line, "press Ctrl+C again to quit");
    }
    let t = truncate_chars(&line, width);
    string_of(&t)
}

// ---------------------------------------------------------------------------
// The approval prompt.
// ---------------------------------------------------------------------------

/// A request waiting for the user's y / n. Paths are held as the text the
/// terminal shows for them.
#[derive(Clone, Debug)]
pub enum ApprovalRequestDetails {
    Exec { id: String, command: Vec<String>, cwd: String, reason: Option<String> },
    Patch { id: String, file_count: usize, reason: Option<String>, grant_root: Option<String> },
}

/// A pending request as plain values.
pub ghost enum RequestView {
    Exec { id: Seq<char>, command: Seq<Seq<char>>, cwd: Seq<char>, reason: Option<Seq<char>> },
    Patch {
        id: Seq<char>,
        file_count: nat,
        reason: Option<Seq<char>>,
        grant_root: Option<Seq<char>>,
    },
}

/// The text of an optional `String`.
pub open spec fn opt_view(o: Option<String>) -> Option<Seq<char>> {
    match o {
        Some(t) => Some(t@),
        None => None,
    }
}

impl ApprovalRequestDetails {
    pub open spec fn spec_view(self) -> RequestView {
        match self {
            ApprovalRequestDetails::Exec { id, command, cwd, reason } => RequestView::Exec {
                id: id@,
                command: command.deep_view(),
                cwd: cwd@,
                reason: opt_view(reason),
            },
            ApprovalRequestDetails::Patch { id, file_count, reason, grant_root } => RequestView::Patch {
                id: id@,
                file_count: file_count as nat,
                reason: opt_view(reason),
                grant_root: opt_view(grant_root),
            },
        }
    }
}

pub open spec fn requests_view(v: Seq<ApprovalRequestDetails>) -> Seq<RequestView> {
    v.map_values(|r: ApprovalRequestDetails| r.spec_view())
}

pub open spec fn request_id(r: RequestView) -> Seq<char> {
    match r {
        RequestView::Exec { id, .. } => id,
        RequestView::Patch { id, .. } => id,
    }
}

/// The optional text `o` as a sequence of zero or one lines.
pub open spec fn opt_line(o: Option<Seq<char>>, f: spec_fn(Seq<char>) -> Seq<char>) -> Seq<Seq<char>> {
    match o {
        Some(t) => seq![f(t)],
        None => Seq::empty(),
    }
}

/// The prompt shown above the composer for the oldest pending request.
pub open spec fn approval_prompt(req: RequestView) -> Seq<Seq<char>> {
    match req {
        RequestView::Exec { command, cwd, reason, .. } => seq![
            styled(FG_YELLOW@, "APPROVAL (exec): "@ + debug_list(command) + " cwd="@ + cwd),
        ] + opt_line(reason, |r: Seq<char>| styled(DIM@, "reason: "@ + r)) + seq![
            styled(FG_YELLOW@, "press y / n"@),
        ],
        RequestView::Patch { file_count, reason, grant_root, .. } => seq![
            styled(FG_MAGENTA@, "APPROVAL (patch): "@ + decimal(file_count) + " files"@),
        ] + opt_line(grant_root, |g: Seq<char>| styled(DIM@, "grant root: "@ + g)) + opt_line(
            reason,
            |r: Seq<char>| styled(DIM@, "reason: "@ + r),
        ) + seq![styled(FG_MAGENTA@, "press y / n"@)],
    }
}

/// The prompt for the oldest of `approvals`; nothing when none is pending.
pub open spec fn approval_prompt_for(approvals: Seq<RequestView>) -> Seq<Seq<char>> {
    if approvals.len() > 0 {
        approval_prompt(approvals[0])
    } else {
        Seq::empty()
    }
}

fn styled_chars(code: &str, text: &Vec<char>) -> (r: Vec<char>)
    ensures
        r@ == styled(code@, text@),
{
    let mut v = chars_of(code);
    push_chars(&mut v, text);
    push_str(&mut v, RESET);
    v
}

/// The lines of the approval prompt for the oldest pending request.
pub fn approval_prompt_lines(approvals: &Vec<ApprovalRequestDetails>) -> (r: Vec<String>)
    ensures
        r.deep_view() == approval_prompt_for(requests_view(approvals@)),
{
    let mut out: Vec<Vec<char>> = Vec::new();
    if approvals.len() == 0 {
        assert(texts(out@) =~= approval_prompt_for(requests_view(approvals@)));
        return strings_of(&out);
    }
    match &approvals[0] {
        ApprovalRequestDetails::Exec { command, cwd, reason, .. } => {
            let mut head = chars_of("APPROVAL (exec): ");
            push_debug_list(&mut head, command);
            push_str(&mut head, " cwd=");
            push_str(&mut head, cwd.as_str());
            out.push(styled_chars(FG_YELLOW, &head));
            match reason {
                Some(r) => {
                    let mut t = chars_of("reason: ");
                    push_str(&mut t, r.as_str());
                    out.push(styled_chars(DIM, &t));
                },
                None => {},
            }
            out.push(styled_chars(FG_YELLOW, &chars_of("press y / n")));
        },
        ApprovalRequestDetails::Patch { file_count, reason, grant_root, .. } => {
            let mut head = chars_of("APPROVAL (patch): ");
            push_decimal(&mut head, *file_count as u64);
            push_str(&mut head, " files");
            out.push(styled_chars(FG_MAGENTA, &head));
            match grant_root {
                Some(g) => {
                    let mut t = chars_of("grant root: ");
                    push_str(&mut t, g.as_str());
                    out.push(styled_chars(DIM, &t));
                },
                None => {},
            }
            match reason {
                Some(r) => {
                    let mut t = chars_of("reason: ");
                    push_str(&mut t, r.as_str());
                    out.push(styled_chars(DIM, &t));
                },
                None => {},
            }
            out.push(styled_chars(FG_MAGENTA, &chars_of("press y / n")));
        },
    }
    assert(texts(out@) =~= approval_prompt_for(requests_view(approvals@)));
    strings_of(&out)
}

// ---------------------------------------------------------------------------
// The composer box.
// ---------------------------------------------------------------------------

/// `width - k`, or 0 when narrower.
pub open spec fn width_less(width: nat, k: nat) -> nat {
    if width >= k {
        (width - k) as nat
    } else {
        0
    }
}

pub open spec fn composer_row(line: Seq<char>, w: nat) -> Seq<char> {
    "│"@ + padded(truncated(line, w), w) + "│"@
}

/// The lines of the bottom pane above the status line: the approval prompt
/// and the popup (each cut to `width`), then the composer text boxed in.
pub open spec fn composer_pane(
    approval_lines: Seq<Seq<char>>,
    popup_lines: Seq<Seq<char>>,
    text_lines: Seq<Seq<char>>,
    width: nat,
) -> Seq<Seq<char>> {
    let w = width_less(width, 2);
    approval_lines.map_values(|l: Seq<char>| truncated(l, width)) + popup_lines + seq![
        truncated(box_top(w), width),
    ] + text_lines.map_values(|l: Seq<char>| composer_row(l, w)) + seq![
        truncated(box_bottom(w), width),
    ]
}

/// Where the cursor goes: the row of the composer line it is on (below the
/// prompt, the popup and the top border), and one column in from the left
/// border, at most `width - 3` characters in.
pub open spec fn composer_cursor(
    approval_count: nat,
    popup_count: nat,
    cursor: (usize, usize),
    width: nat,
) -> (nat, nat) {
    let col = if (cursor.1 as nat) <= width_less(width, 3) {
        cursor.1 as nat
    } else {
        width_less(width, 3)
    };
    (approval_count + popup_count + 1 + (cursor.0 as nat), col + 1)
}

fn truncate_all(v: &Vec<String>, width: usize) -> (r: Vec<Vec<char>>)
    ensures
        texts(r@) == v.deep_view().map_values(|l: Seq<char>| truncated(l, width as nat)),
{
    let mut r: Vec<Vec<char>> = Vec::new();
    for i in 0..v.len()
        invariant
            r.len() == i,
            forall|j: int| 0 <= j < i ==> #[trigger] r@[j]@ == truncated(v@[j]@, width as nat),
    {
        let c = chars_of(v[i].as_str());
        r.push(truncate_chars(&c, width));
    }
    assert(texts(r@) =~= v.deep_view().map_values(|l: Seq<char>| truncated(l, width as nat)));
    r
}

/// The bottom pane above the status line, with the cursor position:
/// `popup_lines` and `text_lines` are what the composer shows, `cursor` its
/// (row, column) within its text.
pub fn export_composer_lines(
    popup_lines: &Vec<String>,
    text_lines: &Vec<String>,
    cursor: (usize, usize),
    width: usize,
    approval_lines: &Vec<String>,
) -> (r: (Vec<String>, usize, usize))
    requires
        approval_lines.len() + popup_lines.len() + 1 + cursor.0 <= usize::MAX,
    ensures
        r.0.deep_view() == composer_pane(
            approval_lines.deep_view(),
            popup_lines.deep_view(),
            text_lines.deep_view(),
            width as nat,
        ),
        (r.1 as nat, r.2 as nat) == composer_cursor(
            approval_lines.len() as nat,
            popup_lines.len() as nat,
            cursor,
            width as nat,
        ),
{
    let w = width.saturating_sub(2);
    let mut lines_out = truncate_all(approval_lines, width);
    let ghost a = texts(lines_out@);
    for i in 0..popup_lines.len()
        invariant
            texts(lines_out@) == a + popup_lines.deep_view().take(i as int),
    {
        let ghost before = texts(lines_out@);
        lines_out.push(chars_of(popup_lines[i].as_str()));
        assert(texts(lines_out@) =~= before.push(popup_lines@[i as int]@));
        assert(popup_lines.deep_view().take(i + 1) =~= popup_lines.deep_view().take(i as int).push(
            popup_lines@[i as int]@,
        ));
    }
    assert(popup_lines.deep_view().take(popup_lines.len() as int) =~= popup_lines.deep_view());
    let mut top = chars_of("┌");
    push_repeat(&mut top, '─', w);
    push_str(&mut top, "┐");
    let ghost b = texts(lines_out@);
    lines_out.push(truncate_chars(&top, width));
    let ghost c = texts(lines_out@);
    assert(c =~= b.push(truncated(box_top(w as nat), width as nat)));
    for i in 0..text_lines.len()
        invariant
            texts(lines_out@) == c + text_lines.deep_view().take(i as int).map_values(
                |l: Seq<char>| composer_row(l, w as nat),
            ),
    {
        let raw = chars_of(text_lines[i].as_str());
        let cut = truncate_chars(&raw, w);
        let mut row = chars_of("│");
        let p = pad_chars(&cut, w);
        push_chars(&mut row, &p);
        push_str(&mut row, "│");
        let ghost before = texts(lines_out@);
        lines_out.push(row);
        assert(texts(lines_out@) =~= before.push(row@));
        assert(text_lines.deep_view().take(i + 1).map_values(|l: Seq<char>| composer_row(l, w as nat))
            =~= text_lines.deep_view().take(i as int).map_values(
            |l: Seq<char>| composer_row(l, w as nat),
        ).push(composer_row(text_lines@[i as int]@, w as nat)));
    }
    assert(text_lines.deep_view().take(text_lines.len() as int) =~= text_lines.deep_view());
    let mut bottom = chars_of("└");
    push_repeat(&mut bottom, '─', w);
    push_str(&mut bottom, "┘");
    let ghost d = texts(lines_out@);
    lines_out.push(truncate_chars(&bottom, width));
    assert(texts(lines_out@) =~= d.push(truncated(box_bottom(w as nat), width as nat)));
    assert(texts(lines_out@) =~= composer_pane(
        approval_lines.deep_view(),
        popup_lines.deep_view(),
        text_lines.deep_view(),
        width as nat,
    ));
    let popup_count = approval_lines.len() + popup_lines.len();
    let cursor_row = popup_count + 1 + cursor.0;
    let limit = width.saturating_sub(3);
    let col = if cursor.1 <= limit { cursor.1 } else { limit };
    let cursor_col = col + 1;
    (strings_of(&lines_out), cursor_row, cursor_col)
}

// ---------------------------------------------------------------------------
// Where the bottom pane goes.
// ---------------------------------------------------------------------------

/// Screen rows of the bottom pane.
#[derive(Clone, Copy, Debug)]
pub struct BottomLayout {
    /// The first row of the previously drawn pane, to be cleared down to the
    /// last row; `None` when nothing was drawn before.
    pub clear_old_from: Option<u16>,
    /// The first of the blank rows kept above the pane.
    pub buffer_start: u16,
    /// The row of the pane's first line.
    pub content_start: u16,
    /// The pane's height, recorded for the next redraw.
    pub content_height: u16,
}

/// `a - b`, or 0 when `b` is larger.
pub open spec fn sat_sub(a: int, b: int) -> int {
    if a >= b {
        a - b
    } else {
        0
    }
}

/// The pane of `height` lines sits at the bottom of a terminal `term_height`
/// rows high, below the reserved blank rows; the old pane of `old_height`
/// lines is cleared from where it started.
pub open spec fn layout_of(term_height: u16, height: u16, old_height: u16) -> BottomLayout {
    let start = sat_sub(term_height as int, height + RESERVED_INPUT_BUFFER);
    BottomLayout {
        clear_old_from: if old_height > 0 {
            Some(
                (sat_sub(term_height as int, old_height + RESERVED_INPUT_BUFFER)
                    + RESERVED_INPUT_BUFFER) as u16,
            )
        } else {
            None
        },
        buffer_start: start as u16,
        content_start: (start + RESERVED_INPUT_BUFFER) as u16,
        content_height: height,
    }
}

/// Where to draw a pane of `line_count` lines on a terminal `term_height`
/// rows high, when the previous pane was `old_height` lines high.
pub fn bottom_layout(term_height: u16, line_count: usize, old_height: u16) -> (r: BottomLayout)
    requires
        line_count + RESERVED_INPUT_BUFFER <= u16::MAX,
        old_height + RESERVED_INPUT_BUFFER <= u16::MAX,
    ensures
        r == layout_of(term_height, line_count as u16, old_height),
{
    let h = line_count as u16;
    let total_new = h + RESERVED_INPUT_BUFFER;
    let start = term_height.saturating_sub(total_new);
    let content_start = start + RESERVED_INPUT_BUFFER;
    let clear_old_from = if old_height > 0 {
        let total_old = old_height + RESERVED_INPUT_BUFFER;
        Some(term_height.saturating_sub(total_old) + RESERVED_INPUT_BUFFER)
    } else {
        None
    };
    BottomLayout { clear_old_from, buffer_start: start, content_start, content_height: h }
}

/// The row of the history line printed last: just above the reserved rows
/// over the pane, when the terminal is taller than those.
pub open spec fn insert_row(term_height: u16, pane_height: u16) -> Option<u16> {
    let total = pane_height + RESERVED_INPUT_BUFFER;
    if term_height > total {
        Some((term_height - total - 1) as u16)
    } else {
        None
    }
}

/// Where new history lines are printed, given the height of the pane.
pub fn history_insert_row(term_height: u16, pane_height: u16) -> (r: Option<u16>)
    requires
        pane_height + RESERVED_INPUT_BUFFER <= u16::MAX,
    ensures
        r == insert_row(term_height, pane_height),
{
    let total = pane_height + RESERVED_INPUT_BUFFER;
    if term_height > total {
        Some(term_height - total - 1)
    } else {
        None
    }
}

} // verus!
