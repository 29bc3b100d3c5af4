//! The text of the worktree list: one header line per repository and one
//! line per worktree, whose branch name is cut to leave room for the
//! status figures after it.
use vstd::prelude::*;
use crate::text::{decimal_spec, push_decimal};

verus! {

/// The working-tree state of a worktree.
#[derive(Clone, Copy, Debug, PartialEq, Eq)]
pub struct WorktreeStatus {
    pub is_dirty: bool,
    pub uncommitted_changes: usize,
    pub ahead: usize,
    pub behind: usize,
}

/// The state of a pull request.
#[derive(Clone, Copy, Debug, PartialEq, Eq, Structural)]
pub enum PrState {
    Open,
    Closed,
    Merged,
}

/// The pull request shown beside a worktree.
#[derive(Clone, Copy, Debug, PartialEq, Eq)]
pub struct PrBadge {
    pub number: u64,
    pub state: PrState,
    pub is_draft: bool,
}

/// What a worktree line shows.
#[derive(Clone, Debug)]
pub struct WorktreeRow {
    pub branch: String,
    pub status: WorktreeStatus,
    pub pr: Option<PrBadge>,
}

/// How a piece of a line is drawn.
#[derive(Clone, Copy, Debug, PartialEq, Eq, Structural)]
pub enum SegmentStyle {
    Plain,
    IdleMark,
    Branch,
    Dirty,
    Ahead,
    Behind,
    PrDraft,
    PrOpen,
    PrClosed,
    PrMerged,
    RepoHeader,
    Dim,
    Warning,
    Emphasis,
}

/// A piece of a line: its text and how it is drawn.
#[derive(Clone, Debug)]
pub struct LineSegment {
    pub text: String,
    pub style: SegmentStyle,
}

impl View for LineSegment {
    type V = (Seq<char>, SegmentStyle);

    open spec fn view(&self) -> (Seq<char>, SegmentStyle) {
        (self.text@, self.style)
    }
}

pub open spec fn segments_view(v: Seq<LineSegment>) -> Seq<(Seq<char>, SegmentStyle)> {
    v.map_values(|s: LineSegment| s@)
}

/// The number of characters of all the pieces of a line.
pub open spec fn line_width(v: Seq<(Seq<char>, SegmentStyle)>) -> nat
    decreases v.len(),
{
    if v.len() == 0 {
        0
    } else {
        line_width(v.drop_last()) + v.last().0.len()
    }
}

pub open spec fn pow10(k: nat) -> nat
    decreases k,
{
    if k == 0 {
        1
    } else {
        10 * pow10((k - 1) as nat)
    }
}

proof fn lemma_decimal_len_bound(n: nat, k: nat)
    requires
        k >= 1,
        n < pow10(k),
    ensures
        decimal_spec(n).len() <= k,
    decreases k,
{
    if n >= 10 {
        if k == 1 {
            assert(pow10(1) == 10) by {
                reveal_with_fuel(pow10, 2);
            }
        }
        lemma_decimal_len_bound(n / 10, (k - 1) as nat);
    }
}

/// A 64-bit number has at most 20 decimal digits.
pub proof fn lemma_decimal_len_u64(n: u64)
    ensures
        1 <= decimal_spec(n as nat).len() <= 20,
{
    assert(pow10(20) == 100000000000000000000nat) by {
        reveal_with_fuel(pow10, 21);
    }
    lemma_decimal_len_bound(n as nat, 20);
}

proof fn lemma_decimal_len_step(n: nat)
    requires
        n >= 10,
    ensures
        decimal_spec(n).len() == decimal_spec(n / 10).len() + 1,
{
}

/// The number of decimal digits of `n`.
pub fn digit_count(n: u64) -> (r: usize)
    ensures
        r == decimal_spec(n as nat).len(),
        1 <= r <= 20,
{
    proof {
        lemma_decimal_len_u64(n);
    }
    let mut count: usize = 1;
    let mut m: u64 = n;
    while m >= 10
        invariant
            1 <= count,
            decimal_spec(m as nat).len() >= 1,
            count + decimal_spec(m as nat).len() == decimal_spec(n as nat).len() + 1,
            decimal_spec(n as nat).len() <= 20,
        decreases m,
    {
        proof {
            lemma_decimal_len_step(m as nat);
        }
        m = m / 10;
        count = count + 1;
    }
    count
}

/// The label of a pull request badge.
pub open spec fn pr_label_spec(pr: PrBadge) -> Seq<char> {
    match pr.state {
        PrState::Open => if pr.is_draft {
            "draft"@
        } else {
            "open"@
        },
        PrState::Closed => "closed"@,
        PrState::Merged => "merged"@,
    }
}

pub open spec fn pr_style_spec(pr: PrBadge) -> SegmentStyle {
    match pr.state {
        PrState::Open => if pr.is_draft {
            SegmentStyle::PrDraft
        } else {
            SegmentStyle::PrOpen
        },
        PrState::Closed => SegmentStyle::PrClosed,
        PrState::Merged => SegmentStyle::PrMerged,
    }
}

/// The number of characters of a pull request label.
pub open spec fn pr_label_len(pr: PrBadge) -> nat {
    match pr.state {
        PrState::Open => if pr.is_draft {
            5
        } else {
            4
        },
        PrState::Closed => 6,
        PrState::Merged => 6,
    }
}

/// The columns taken by everything after the branch name: the dirty mark
/// and change count, the ahead and behind counts, and the pull request badge.
pub open spec fn stats_width_spec(wt: WorktreeRow) -> nat {
    (if wt.status.is_dirty {
        4 + decimal_spec(wt.status.uncommitted_changes as nat).len()
    } else {
        0nat
    }) + (if wt.status.ahead > 0 {
        2 + decimal_spec(wt.status.ahead as nat).len()
    } else {
        0nat
    }) + (if wt.status.behind > 0 {
        2 + decimal_spec(wt.status.behind as nat).len()
    } else {
        0nat
    }) + (match wt.pr {
        Some(pr) => 6 + decimal_spec(pr.number as nat).len() + pr_label_len(pr),
        None => 0nat,
    })
}

/// Counts the display columns of every element that comes after the branch
/// name (dirty marker, ahead/behind, PR badge). All the marks used are one
/// column wide.
pub fn stats_display_width(wt: &WorktreeRow) -> (r: usize)
    ensures
        r == stats_width_spec(*wt),
{
    let mut w: usize = 0;
    if wt.status.is_dirty {
        w = w + 2 + 1 + 1 + digit_count(wt.status.uncommitted_changes as u64);
    }
    if wt.status.ahead > 0 {
        w = w + 1 + 1 + digit_count(wt.status.ahead as u64);
    }
    if wt.status.behind > 0 {
        w = w + 1 + 1 + digit_count(wt.status.behind as u64);
    }
    if let Some(pr) = wt.pr {
        let label_len: usize = match pr.state {
            PrState::Open => if pr.is_draft {
                5
            } else {
                4
            },
            PrState::Closed => 6,
            PrState::Merged => 6,
        };
        w = w + 2 + 1 + 1 + digit_count(pr.number) + 1 + label_len + 1;
    }
    w
}

/// A branch name cut to `budget` characters: unchanged when it fits,
/// otherwise its first `budget - 1` characters and `…`; empty for a zero
/// budget.
pub open spec fn fit_branch_spec(branch: Seq<char>, budget: nat) -> Seq<char> {
    if budget == 0 {
        Seq::empty()
    } else if branch.len() <= budget {
        branch
    } else {
        branch.subrange(0, budget - 1).push('…')
    }
}

/// Truncates `branch` to fit within `budget` display columns, appending
/// `…` when it cuts.
pub fn fit_branch(branch: &str, budget: usize) -> (r: String)
    ensures
        r@ == fit_branch_spec(branch@, budget as nat),
        r@.len() <= budget,
{
    if budget == 0 {
        return String::new();
    }
    let n = branch.unicode_len();
    if n <= budget {
        return String::from_str(branch);
    }
    let keep = branch.substring_char(0, budget - 1);
    let mut s = String::from_str(keep);
    s.push('…');
    s
}

/// A branch name that fits its budget is kept whole; a longer one is cut
/// to exactly the budget: its first characters and then `…`.
pub proof fn law_fit_branch_cuts(branch: Seq<char>, budget: nat)
    ensures
        fit_branch_spec(branch, budget).len() <= budget,
        branch.len() <= budget ==> fit_branch_spec(branch, budget) == branch,
        branch.len() > budget > 0 ==> {
            let r = fit_branch_spec(branch, budget);
            &&& r.len() == budget
            &&& r[budget - 1] == '…'
            &&& forall|i: int| 0 <= i < budget - 1 ==> #[trigger] r[i] == branch[i]
        },
        budget == 0 ==> fit_branch_spec(branch, budget).len() == 0,
{
}

/// The branch budget of a worktree line: what is left of the width after
/// the two-column idle mark and the status figures.
pub open spec fn branch_budget_spec(wt: WorktreeRow, inner_width: usize) -> nat {
    let after_mark: int = if inner_width >= 2 {
        inner_width - 2
    } else {
        0
    };
    if after_mark >= stats_width_spec(wt) {
        (after_mark - stats_width_spec(wt)) as nat
    } else {
        0
    }
}

pub open spec fn idle_part(idle: bool) -> Seq<(Seq<char>, SegmentStyle)> {
    if idle {
        seq![("✓ "@, SegmentStyle::IdleMark)]
    } else {
        seq![("  "@, SegmentStyle::Plain)]
    }
}

pub open spec fn dirty_part(wt: WorktreeRow) -> Seq<(Seq<char>, SegmentStyle)> {
    if wt.status.is_dirty {
        seq![
            ("  "@, SegmentStyle::Plain),
            ("● "@ + decimal_spec(wt.status.uncommitted_changes as nat), SegmentStyle::Dirty),
        ]
    } else {
        seq![]
    }
}

pub open spec fn ahead_part(wt: WorktreeRow) -> Seq<(Seq<char>, SegmentStyle)> {
    if wt.status.ahead > 0 {
        seq![(" "@, SegmentStyle::Plain), ("↑"@ + decimal_spec(wt.status.ahead as nat), SegmentStyle::Ahead)]
    } else {
        seq![]
    }
}

pub open spec fn behind_part(wt: WorktreeRow) -> Seq<(Seq<char>, SegmentStyle)> {
    if wt.status.behind > 0 {
        seq![
            (" "@, SegmentStyle::Plain),
            ("↓"@ + decimal_spec(wt.status.behind as nat), SegmentStyle::Behind),
        ]
    } else {
        seq![]
    }
}

pub open spec fn pr_part(wt: WorktreeRow) -> Seq<(Seq<char>, SegmentStyle)> {
    match wt.pr {
        Some(p) => seq![
            ("  "@, SegmentStyle::Plain),
            ("[#"@ + decimal_spec(p.number as nat) + " "@ + pr_label_spec(p) + "]"@, pr_style_spec(p)),
        ],
        None => seq![],
    }
}

/// The pieces of a worktree line, in order.
pub open spec fn worktree_line_spec(wt: WorktreeRow, idle: bool, inner_width: usize) -> Seq<
    (Seq<char>, SegmentStyle),
> {
    idle_part(idle) + seq![
        (fit_branch_spec(wt.branch@, branch_budget_spec(wt, inner_width)), SegmentStyle::Branch),
    ] + dirty_part(wt) + ahead_part(wt) + behind_part(wt) + pr_part(wt)
}

fn segment(text: String, style: SegmentStyle) -> (r: LineSegment)
    ensures
        r@ == (text@, style),
{
    LineSegment { text, style }
}

pub(crate) fn push_segment(v: &mut Vec<LineSegment>, text: String, style: SegmentStyle)
    ensures
        segments_view(final(v)@) == segments_view(old(v)@).push((text@, style)),
{
    let ghost before = v@;
    v.push(segment(text, style));
    assert(segments_view(v@) =~= segments_view(before).push((text@, style)));
}

fn number_text(prefix: &str, n: u64) -> (r: String)
    ensures
        r@ == prefix@ + decimal_spec(n as nat),
{
    let mut s = String::from_str(prefix);
    push_decimal(&mut s, n);
    s
}

/// The pieces of a worktree line: the idle mark, the branch name cut to
/// what the width leaves, then the dirty count, the ahead and behind
/// counts and the pull request badge.
pub fn worktree_line(wt: &WorktreeRow, idle: bool, inner_width: usize) -> (r: Vec<LineSegment>)
    ensures
        segments_view(r@) == worktree_line_spec(*wt, idle, inner_width),
{
    let stats_cols = stats_display_width(wt);
    let after_mark = inner_width.saturating_sub(2);
    let branch_budget = after_mark.saturating_sub(stats_cols);
    let branch = fit_branch(wt.branch.as_str(), branch_budget);
    let mut spans: Vec<LineSegment> = Vec::new();
    if idle {
        push_segment(&mut spans, String::from_str("✓ "), SegmentStyle::IdleMark);
    } else {
        push_segment(&mut spans, String::from_str("  "), SegmentStyle::Plain);
    }
    push_segment(&mut spans, branch, SegmentStyle::Branch);
    let ghost p1 = idle_part(idle) + seq![
        (fit_branch_spec(wt.branch@, branch_budget_spec(*wt, inner_width)), SegmentStyle::Branch),
    ];
    assert(segments_view(spans@) =~= p1);
    if wt.status.is_dirty {
        push_segment(&mut spans, String::from_str("  "), SegmentStyle::Plain);
        push_segment(
            &mut spans,
            number_text("● ", wt.status.uncommitted_changes as u64),
            SegmentStyle::Dirty,
        );
    }
    assert(segments_view(spans@) =~= p1 + dirty_part(*wt));
    if wt.status.ahead > 0 {
        push_segment(&mut spans, String::from_str(" "), SegmentStyle::Plain);
        push_segment(&mut spans, number_text("↑", wt.status.ahead as u64), SegmentStyle::Ahead);
    }
    assert(segments_view(spans@) =~= p1 + dirty_part(*wt) + ahead_part(*wt));
    if wt.status.behind > 0 {
        push_segment(&mut spans, String::from_str(" "), SegmentStyle::Plain);
        push_segment(&mut spans, number_text("↓", wt.status.behind as u64), SegmentStyle::Behind);
    }
    assert(segments_view(spans@) =~= p1 + dirty_part(*wt) + ahead_part(*wt) + behind_part(*wt));
    if let Some(pr) = wt.pr {
        push_segment(&mut spans, String::from_str("  "), SegmentStyle::Plain);
        let (style, label) = match pr.state {
            PrState::Open => if pr.is_draft {
                (SegmentStyle::PrDraft, "draft")
            } else {
                (SegmentStyle::PrOpen, "open")
            },
            PrState::Closed => (SegmentStyle::PrClosed, "closed"),
            PrState::Merged => (SegmentStyle::PrMerged, "merged"),
        };
        let mut text = number_text("[#", pr.number);
        text.append(" ");
        text.append(label);
        text.append("]");
        push_segment(&mut spans, text, style);
    }
    assert(segments_view(spans@) =~= worktree_line_spec(*wt, idle, inner_width));
    spans
}

/// The pieces of a repository header line: the fold arrow and the name,
/// then the number of worktrees.
pub open spec fn repo_header_spec(is_expanded: bool, name: Seq<char>, count: usize) -> Seq<
    (Seq<char>, SegmentStyle),
> {
    seq![
        ((if is_expanded {
            "▼"@
        } else {
            "▶"@
        }) + " "@ + name + " "@, SegmentStyle::RepoHeader),
        ("("@ + decimal_spec(count as nat) + " worktree"@ + (if count == 1 {
            ""@
        } else {
            "s"@
        }) + ")"@, SegmentStyle::Dim),
    ]
}

/// The pieces of the header line of a repository with `count` worktrees.
pub fn repo_header(is_expanded: bool, name: &str, count: usize) -> (r: Vec<LineSegment>)
    ensures
        segments_view(r@) == repo_header_spec(is_expanded, name@, count),
{
    let icon = if is_expanded {
        "▼"
    } else {
        "▶"
    };
    let mut head = String::from_str(icon);
    head.append(" ");
    head.append(name);
    head.append(" ");
    let mut tail = number_text("(", count as u64);
    tail.append(" worktree");
    if count == 1 {
        tail.append("");
    } else {
        tail.append("s");
    }
    tail.append(")");
    let mut spans: Vec<LineSegment> = Vec::new();
    push_segment(&mut spans, head, SegmentStyle::RepoHeader);
    push_segment(&mut spans, tail, SegmentStyle::Dim);
    assert(segments_view(spans@) =~= repo_header_spec(is_expanded, name@, count));
    spans
}

/// One row of the worktree list: a repository header, or a worktree of it
/// with whether its terminal session is idle.
#[derive(Clone, Debug)]
pub enum ListRow {
    Repo { name: String, is_expanded: bool, count: usize },
    Worktree { row: WorktreeRow, idle: bool },
}

/// The pieces of the line that shows a row of the list.
pub open spec fn list_row_spec(item: ListRow, inner_width: usize) -> Seq<(Seq<char>, SegmentStyle)> {
    match item {
        ListRow::Repo { name, is_expanded, count } => repo_header_spec(is_expanded, name@, count),
        ListRow::Worktree { row, idle } => worktree_line_spec(row, idle, inner_width),
    }
}

/// The lines of the worktree list, one per row, in the order of the rows.
pub fn list_lines(rows: &[ListRow], inner_width: usize) -> (r: Vec<Vec<LineSegment>>)
    ensures
        r@.len() == rows@.len(),
        forall|i: int|
            0 <= i < rows@.len() ==> segments_view(#[trigger] r@[i]@) == list_row_spec(
                rows@[i],
                inner_width,
            ),
{
    let mut lines: Vec<Vec<LineSegment>> = Vec::new();
    let mut i: usize = 0;
    while i < rows.len()
        invariant
            i <= rows@.len(),
            lines@.len() == i,
            forall|j: int|
                0 <= j < i ==> segments_view(#[trigger] lines@[j]@) == list_row_spec(
                    rows@[j],
                    inner_width,
                ),
        decreases rows@.len() - i,
    {
        let line = match &rows[i] {
            ListRow::Repo { name, is_expanded, count } => repo_header(
                *is_expanded,
                name.as_str(),
                *count,
            ),
            ListRow::Worktree { row, idle } => worktree_line(row, *idle, inner_width),
        };
        lines.push(line);
        i = i + 1;
    }
    lines
}

/// The last piece of the line of a worktree with a pull request is its
/// badge: `[#`, the number, a space, the label and `]`. The label of an
/// open pull request is `open`, or `draft` for a draft; a closed one reads
/// `closed` and a merged one `merged`, each with its own style.
pub proof fn law_pr_badge_closes_line(wt: WorktreeRow, idle: bool, inner_width: usize)
    requires
        wt.pr is Some,
    ensures
        ({
            let p = wt.pr->Some_0;
            let line = worktree_line_spec(wt, idle, inner_width);
            let num = decimal_spec(p.number as nat);
            &&& p.state == PrState::Open && !p.is_draft ==> line.last() == (
                "[#"@ + num + " open]"@,
                SegmentStyle::PrOpen,
            )
            &&& p.state == PrState::Open && p.is_draft ==> line.last() == (
                "[#"@ + num + " draft]"@,
                SegmentStyle::PrDraft,
            )
            &&& p.state == PrState::Closed ==> line.last() == (
                "[#"@ + num + " closed]"@,
                SegmentStyle::PrClosed,
            )
            &&& p.state == PrState::Merged ==> line.last() == (
                "[#"@ + num + " merged]"@,
                SegmentStyle::PrMerged,
            )
        }),
{
    let p = wt.pr->Some_0;
    let num = decimal_spec(p.number as nat);
    reveal_strlit(" open]");
    reveal_strlit(" draft]");
    reveal_strlit(" closed]");
    reveal_strlit(" merged]");
    reveal_strlit(" ");
    reveal_strlit("]");
    reveal_strlit("open");
    reveal_strlit("draft");
    reveal_strlit("closed");
    reveal_strlit("merged");
    let line = worktree_line_spec(wt, idle, inner_width);
    let badge = pr_part(wt);
    assert(line.last() == badge.last());
    assert("[#"@ + num + " "@ + pr_label_spec(p) + "]"@ =~= "[#"@ + num + (" "@ + pr_label_spec(p)
        + "]"@));
    assert(" "@ + "open"@ + "]"@ =~= " open]"@);
    assert(" "@ + "draft"@ + "]"@ =~= " draft]"@);
    assert(" "@ + "closed"@ + "]"@ =~= " closed]"@);
    assert(" "@ + "merged"@ + "]"@ =~= " merged]"@);
}

/// Some piece of `line` is drawn in style `st`.
pub open spec fn has_piece_styled(line: Seq<(Seq<char>, SegmentStyle)>, st: SegmentStyle) -> bool {
    exists|i: int| 0 <= i < line.len() && (#[trigger] line[i]).1 == st
}

/// Every piece of `line` drawn in style `st` reads `text`.
pub open spec fn pieces_styled_read(
    line: Seq<(Seq<char>, SegmentStyle)>,
    st: SegmentStyle,
    text: Seq<char>,
) -> bool {
    forall|i: int| 0 <= i < line.len() && (#[trigger] line[i]).1 == st ==> line[i].0 == text
}

proof fn lemma_styled_concat(
    x: Seq<(Seq<char>, SegmentStyle)>,
    y: Seq<(Seq<char>, SegmentStyle)>,
    st: SegmentStyle,
    text: Seq<char>,
)
    ensures
        has_piece_styled(x + y, st) <==> has_piece_styled(x, st) || has_piece_styled(y, st),
        pieces_styled_read(x + y, st, text) <==> pieces_styled_read(x, st, text)
            && pieces_styled_read(y, st, text),
{
    let z = x + y;
    if has_piece_styled(z, st) {
        let i = choose|i: int| 0 <= i < z.len() && (#[trigger] z[i]).1 == st;
        if i < x.len() {
            assert(x[i] == z[i]);
        } else {
            assert(y[i - x.len()] == z[i]);
        }
    }
    if has_piece_styled(x, st) {
        let i = choose|i: int| 0 <= i < x.len() && (#[trigger] x[i]).1 == st;
        assert(z[i] == x[i]);
    }
    if has_piece_styled(y, st) {
        let i = choose|i: int| 0 <= i < y.len() && (#[trigger] y[i]).1 == st;
        assert(z[x.len() + i] == y[i]);
    }
    if pieces_styled_read(z, st, text) {
        assert forall|i: int| 0 <= i < x.len() && (#[trigger] x[i]).1 == st implies x[i].0
            == text by {
            assert(z[i] == x[i]);
        }
        assert forall|i: int| 0 <= i < y.len() && (#[trigger] y[i]).1 == st implies y[i].0
            == text by {
            assert(z[x.len() + i] == y[i]);
        }
    }
    if pieces_styled_read(x, st, text) && pieces_styled_read(y, st, text) {
        assert forall|i: int| 0 <= i < z.len() && (#[trigger] z[i]).1 == st implies z[i].0
            == text by {
            if i < x.len() {
                assert(x[i] == z[i]);
            } else {
                assert(y[i - x.len()] == z[i]);
            }
        }
    }
}

proof fn lemma_pair_styled(
    e0: (Seq<char>, SegmentStyle),
    e1: (Seq<char>, SegmentStyle),
    st: SegmentStyle,
    text: Seq<char>,
)
    ensures
        has_piece_styled(seq![e0, e1], st) <==> e0.1 == st || e1.1 == st,
        pieces_styled_read(seq![e0, e1], st, text) <==> (e0.1 == st ==> e0.0 == text) && (e1.1
            == st ==> e1.0 == text),
{
    let x = seq![e0, e1];
    assert(x[0] == e0);
    assert(x[1] == e1);
}

proof fn lemma_single_styled(e0: (Seq<char>, SegmentStyle), st: SegmentStyle, text: Seq<char>)
    ensures
        has_piece_styled(seq![e0], st) <==> e0.1 == st,
        pieces_styled_read(seq![e0], st, text) <==> (e0.1 == st ==> e0.0 == text),
{
    let x = seq![e0];
    assert(x[0] == e0);
}

/// The pieces of a worktree line in a given style are those of its parts.
proof fn lemma_line_styled(wt: WorktreeRow, idle: bool, inner_width: usize, st: SegmentStyle, t: Seq<char>)
    ensures
        ({
            let line = worktree_line_spec(wt, idle, inner_width);
            let m = idle_part(idle);
            let br = seq![
                (fit_branch_spec(wt.branch@, branch_budget_spec(wt, inner_width)), SegmentStyle::Branch),
            ];
            let d = dirty_part(wt);
            let a = ahead_part(wt);
            let b = behind_part(wt);
            let p = pr_part(wt);
            &&& has_piece_styled(line, st) <==> has_piece_styled(m, st) || has_piece_styled(br, st)
                || has_piece_styled(d, st) || has_piece_styled(a, st) || has_piece_styled(b, st)
                || has_piece_styled(p, st)
            &&& pieces_styled_read(line, st, t) <==> pieces_styled_read(m, st, t)
                && pieces_styled_read(br, st, t) && pieces_styled_read(d, st, t)
                && pieces_styled_read(a, st, t) && pieces_styled_read(b, st, t)
                && pieces_styled_read(p, st, t)
        }),
{
    let m = idle_part(idle);
    let br = seq![
        (fit_branch_spec(wt.branch@, branch_budget_spec(wt, inner_width)), SegmentStyle::Branch),
    ];
    let d = dirty_part(wt);
    let a = ahead_part(wt);
    let b = behind_part(wt);
    let p = pr_part(wt);
    lemma_styled_concat(m, br, st, t);
    lemma_styled_concat(m + br, d, st, t);
    lemma_styled_concat(m + br + d, a, st, t);
    lemma_styled_concat(m + br + d + a, b, st, t);
    lemma_styled_concat(m + br + d + a + b, p, st, t);
}

/// Facts on each part of a worktree line for the styles of the idle mark
/// and of the three figures.
proof fn lemma_parts_styled(wt: WorktreeRow, idle: bool, inner_width: usize, st: SegmentStyle, t: Seq<char>)
    requires
        st == SegmentStyle::IdleMark || st == SegmentStyle::Dirty || st == SegmentStyle::Ahead
            || st == SegmentStyle::Behind,
    ensures
        has_piece_styled(idle_part(idle), st) <==> idle && st == SegmentStyle::IdleMark,
        pieces_styled_read(idle_part(idle), st, t) <==> (idle && st == SegmentStyle::IdleMark
            ==> "✓ "@ == t),
        !has_piece_styled(
            seq![(fit_branch_spec(wt.branch@, branch_budget_spec(wt, inner_width)), SegmentStyle::Branch)],
            st,
        ),
        pieces_styled_read(
            seq![(fit_branch_spec(wt.branch@, branch_budget_spec(wt, inner_width)), SegmentStyle::Branch)],
            st,
            t,
        ),
        has_piece_styled(dirty_part(wt), st) <==> wt.status.is_dirty && st == SegmentStyle::Dirty,
        pieces_styled_read(dirty_part(wt), st, t) <==> (wt.status.is_dirty && st
            == SegmentStyle::Dirty ==> "● "@ + decimal_spec(wt.status.uncommitted_changes as nat)
            == t),
        has_piece_styled(ahead_part(wt), st) <==> wt.status.ahead > 0 && st == SegmentStyle::Ahead,
        pieces_styled_read(ahead_part(wt), st, t) <==> (wt.status.ahead > 0 && st
            == SegmentStyle::Ahead ==> "↑"@ + decimal_spec(wt.status.ahead as nat) == t),
        has_piece_styled(behind_part(wt), st) <==> wt.status.behind > 0 && st
            == SegmentStyle::Behind,
        pieces_styled_read(behind_part(wt), st, t) <==> (wt.status.behind > 0 && st
            == SegmentStyle::Behind ==> "↓"@ + decimal_spec(wt.status.behind as nat) == t),
        !has_piece_styled(pr_part(wt), st),
        pieces_styled_read(pr_part(wt), st, t),
{
    lemma_single_styled(idle_part(idle)[0], st, t);
    assert(idle_part(idle) =~= seq![idle_part(idle)[0]]);
    lemma_single_styled(
        (fit_branch_spec(wt.branch@, branch_budget_spec(wt, inner_width)), SegmentStyle::Branch),
        st,
        t,
    );
    let d = dirty_part(wt);
    if wt.status.is_dirty {
        lemma_pair_styled(d[0], d[1], st, t);
        assert(d =~= seq![d[0], d[1]]);
    }
    let a = ahead_part(wt);
    if wt.status.ahead > 0 {
        lemma_pair_styled(a[0], a[1], st, t);
        assert(a =~= seq![a[0], a[1]]);
    }
    let b = behind_part(wt);
    if wt.status.behind > 0 {
        lemma_pair_styled(b[0], b[1], st, t);
        assert(b =~= seq![b[0], b[1]]);
    }
    let p = pr_part(wt);
    if let Some(pr) = wt.pr {
        lemma_pair_styled(p[0], p[1], st, t);
        assert(p =~= seq![p[0], p[1]]);
    }
}

/// A worktree line opens with the idle mark `✓ ` when the session is idle
/// and two blanks otherwise, then the branch name. It shows the change
/// count `● n` exactly when the worktree is dirty, `↑n` exactly when it is
/// ahead and `↓n` exactly when it is behind, each in its own style and
/// with its own figure.
pub proof fn law_worktree_line_figures(wt: WorktreeRow, idle: bool, inner_width: usize)
    ensures
        ({
            let line = worktree_line_spec(wt, idle, inner_width);
            &&& line.len() >= 2
            &&& line[0] == if idle {
                ("✓ "@, SegmentStyle::IdleMark)
            } else {
                ("  "@, SegmentStyle::Plain)
            }
            &&& line[1].1 == SegmentStyle::Branch
            &&& has_piece_styled(line, SegmentStyle::IdleMark) <==> idle
            &&& has_piece_styled(line, SegmentStyle::Dirty) <==> wt.status.is_dirty
            &&& pieces_styled_read(
                line,
                SegmentStyle::Dirty,
                "● "@ + decimal_spec(wt.status.uncommitted_changes as nat),
            )
            &&& has_piece_styled(line, SegmentStyle::Ahead) <==> wt.status.ahead > 0
            &&& pieces_styled_read(line, SegmentStyle::Ahead, "↑"@ + decimal_spec(wt.status.ahead as nat))
            &&& has_piece_styled(line, SegmentStyle::Behind) <==> wt.status.behind > 0
            &&& pieces_styled_read(
                line,
                SegmentStyle::Behind,
                "↓"@ + decimal_spec(wt.status.behind as nat),
            )
        }),
{
    let dt = "● "@ + decimal_spec(wt.status.uncommitted_changes as nat);
    let at = "↑"@ + decimal_spec(wt.status.ahead as nat);
    let bt = "↓"@ + decimal_spec(wt.status.behind as nat);
    lemma_line_styled(wt, idle, inner_width, SegmentStyle::IdleMark, "✓ "@);
    lemma_parts_styled(wt, idle, inner_width, SegmentStyle::IdleMark, "✓ "@);
    lemma_line_styled(wt, idle, inner_width, SegmentStyle::Dirty, dt);
    lemma_parts_styled(wt, idle, inner_width, SegmentStyle::Dirty, dt);
    lemma_line_styled(wt, idle, inner_width, SegmentStyle::Ahead, at);
    lemma_parts_styled(wt, idle, inner_width, SegmentStyle::Ahead, at);
    lemma_line_styled(wt, idle, inner_width, SegmentStyle::Behind, bt);
    lemma_parts_styled(wt, idle, inner_width, SegmentStyle::Behind, bt);
    let m = idle_part(idle);
    let br = seq![
        (fit_branch_spec(wt.branch@, branch_budget_spec(wt, inner_width)), SegmentStyle::Branch),
    ];
    let line = worktree_line_spec(wt, idle, inner_width);
    let rest = dirty_part(wt) + ahead_part(wt) + behind_part(wt) + pr_part(wt);
    assert(line =~= (m + br) + rest);
    assert(line[0] == m[0]);
    assert(line[1] == br[0]);
}

proof fn lemma_line_width_concat(
    a: Seq<(Seq<char>, SegmentStyle)>,
    b: Seq<(Seq<char>, SegmentStyle)>,
)
    ensures
        line_width(a + b) == line_width(a) + line_width(b),
    decreases b.len(),
{
    if b.len() > 0 {
        assert((a + b).drop_last() =~= a + b.drop_last());
        lemma_line_width_concat(a, b.drop_last());
    } else {
        assert(a + b =~= a);
    }
}

proof fn lemma_line_width_pair(x: (Seq<char>, SegmentStyle), y: (Seq<char>, SegmentStyle))
    ensures
        line_width(seq![x, y]) == x.0.len() + y.0.len(),
        line_width(seq![x]) == x.0.len(),
{
    let e = Seq::<(Seq<char>, SegmentStyle)>::empty();
    assert(seq![x, y].drop_last() =~= seq![x]);
    assert(seq![x].drop_last() =~= e);
    assert(line_width(e) == 0);
    assert(line_width(seq![x]) == line_width(e) + seq![x].last().0.len());
    assert(line_width(seq![x, y]) == line_width(seq![x]) + seq![x, y].last().0.len());
}

/// The status figures of a worktree line take exactly the columns that
/// `stats_display_width` counts.
pub proof fn law_stats_width_is_text_width(wt: WorktreeRow)
    ensures
        line_width(dirty_part(wt) + ahead_part(wt) + behind_part(wt) + pr_part(wt))
            == stats_width_spec(wt),
{
    reveal_strlit("  ");
    reveal_strlit(" ");
    reveal_strlit("● ");
    reveal_strlit("↑");
    reveal_strlit("↓");
    reveal_strlit("[#");
    reveal_strlit("]");
    reveal_strlit("draft");
    reveal_strlit("open");
    reveal_strlit("closed");
    reveal_strlit("merged");
    let d = dirty_part(wt);
    let a = ahead_part(wt);
    let b = behind_part(wt);
    let p = pr_part(wt);
    assert(line_width(Seq::<(Seq<char>, SegmentStyle)>::empty()) == 0);
    if wt.status.is_dirty {
        lemma_line_width_pair(d[0], d[1]);
        assert(d =~= seq![d[0], d[1]]);
    }
    if wt.status.ahead > 0 {
        lemma_line_width_pair(a[0], a[1]);
        assert(a =~= seq![a[0], a[1]]);
    }
    if wt.status.behind > 0 {
        lemma_line_width_pair(b[0], b[1]);
        assert(b =~= seq![b[0], b[1]]);
    }
    if let Some(pr) = wt.pr {
        lemma_line_width_pair(p[0], p[1]);
        assert(p =~= seq![p[0], p[1]]);
        assert(pr_label_spec(pr).len() == pr_label_len(pr));
    }
    lemma_line_width_concat(d, a);
    lemma_line_width_concat(d + a, b);
    lemma_line_width_concat(d + a + b, p);
}

/// A worktree line is the two-column mark, the cut branch name and the
/// status figures; it fits the width whenever the width leaves room for the
/// mark and the figures.
pub proof fn law_worktree_line_fits(wt: WorktreeRow, idle: bool, inner_width: usize)
    ensures
        line_width(worktree_line_spec(wt, idle, inner_width)) == 2 + fit_branch_spec(
            wt.branch@,
            branch_budget_spec(wt, inner_width),
        ).len() + stats_width_spec(wt),
        inner_width >= 2 + stats_width_spec(wt) ==> line_width(
            worktree_line_spec(wt, idle, inner_width),
        ) <= inner_width,
{
    reveal_strlit("✓ ");
    reveal_strlit("  ");
    let m = idle_part(idle);
    let br = seq![
        (fit_branch_spec(wt.branch@, branch_budget_spec(wt, inner_width)), SegmentStyle::Branch),
    ];
    lemma_line_width_pair(m[0], br[0]);
    assert(m =~= seq![m[0]]);
    assert(m + br =~= seq![m[0], br[0]]);
    law_stats_width_is_text_width(wt);
    let rest = dirty_part(wt) + ahead_part(wt) + behind_part(wt) + pr_part(wt);
    lemma_line_width_concat(m + br, rest);
    assert(worktree_line_spec(wt, idle, inner_width) =~= (m + br) + rest);
    let budget = branch_budget_spec(wt, inner_width);
    assert(fit_branch_spec(wt.branch@, budget).len() <= budget);
}

} // verus!
