//! Working-tree / index status classification: reduces per-path change flags
//! into the three-state cleanliness vocabulary, with Dirty taking precedence
//! over Tainted, and Tainted over Clean; renders per-path porcelain codes
//! and the status lines built from the classification.

use crate::color::{spec_paint, ColorConfig, Style};
use crate::decorations::{spec_join_comma, Decorations};
use crate::strutil::{spec_dec, str_eq};
use vstd::prelude::*;

verus! {

/// Summary of the repository's working state.
/// `Dirty`: at least one tracked-file difference (index vs HEAD, or worktree
/// vs index). `Tainted`: no tracked difference, but at least one untracked,
/// non-ignored file. `Clean`: neither.
#[derive(Clone, Copy, Debug, PartialEq, Eq, Structural)]
pub enum CleanState {
    Clean,
    Dirty,
    Tainted,
}

/// Per-path change flags, as reported by a status scan of the repository.
#[derive(Clone, Copy, Debug, PartialEq, Eq, Structural)]
pub struct StatusFlags {
    pub index_new: bool,
    pub index_modified: bool,
    pub index_deleted: bool,
    pub index_renamed: bool,
    pub index_typechange: bool,
    pub wt_new: bool,
    pub wt_modified: bool,
    pub wt_deleted: bool,
    pub wt_renamed: bool,
    pub wt_typechange: bool,
    pub conflicted: bool,
    pub ignored: bool,
}

/// An entry shows a difference between the index and HEAD.
pub open spec fn spec_has_index_change(f: StatusFlags) -> bool {
    f.index_new || f.index_modified || f.index_deleted || f.index_renamed || f.index_typechange
}

/// An entry shows a worktree-vs-index difference on a tracked path.
pub open spec fn spec_has_tracked_wt_change(f: StatusFlags) -> bool {
    f.wt_modified || f.wt_deleted || f.wt_renamed || f.wt_typechange
}

/// An entry is an untracked, non-ignored file.
pub open spec fn spec_is_untracked(f: StatusFlags) -> bool {
    f.wt_new && !f.ignored
}

/// The classification the scan must produce: Dirty wins over Tainted,
/// Tainted over Clean.
pub open spec fn spec_classify(entries: Seq<StatusFlags>) -> CleanState {
    if exists|i: int|
        0 <= i < entries.len() && (spec_has_index_change(entries[i]) || spec_has_tracked_wt_change(
            entries[i],
        )) {
        CleanState::Dirty
    } else if exists|i: int| 0 <= i < entries.len() && spec_is_untracked(entries[i]) {
        CleanState::Tainted
    } else {
        CleanState::Clean
    }
}

/// Reduce a status scan to a `CleanState`, scanning every entry once.
pub fn classify_cleanliness(entries: &Vec<StatusFlags>) -> (state: CleanState)
    ensures
        state == spec_classify(entries@),
{
    let mut has_tracked: bool = false;
    let mut has_untracked: bool = false;
    let n: usize = entries.len();
    let mut k: usize = 0;
    while k < n
        invariant
            n == entries@.len(),
            0 <= k <= n,
            has_tracked == exists|i: int|
                0 <= i < k && (spec_has_index_change(entries@[i]) || spec_has_tracked_wt_change(
                    entries@[i],
                )),
            has_untracked == exists|i: int| 0 <= i < k && spec_is_untracked(entries@[i]),
        decreases n - k,
    {
        let f = entries[k];
        if f.index_new || f.index_modified || f.index_deleted || f.index_renamed
            || f.index_typechange || f.wt_modified || f.wt_deleted || f.wt_renamed
            || f.wt_typechange {
            has_tracked = true;
        }
        if f.wt_new && !f.ignored {
            has_untracked = true;
        }
        k = k + 1;
    }
    if has_tracked {
        CleanState::Dirty
    } else if has_untracked {
        CleanState::Tainted
    } else {
        CleanState::Clean
    }
}

/// Classification follows the fixed precedence Dirty over Tainted over
/// Clean: any tracked difference makes the scan Dirty whatever else it
/// holds; only a scan with no tracked difference but an untracked file is
/// Tainted; only a scan with neither is Clean.
pub proof fn lemma_status_precedence(entries: Seq<StatusFlags>)
    ensures
        (exists|i: int|
            0 <= i < entries.len() && (spec_has_index_change(entries[i])
                || spec_has_tracked_wt_change(entries[i]))) ==> spec_classify(entries)
            == CleanState::Dirty,
        (!(exists|i: int|
            0 <= i < entries.len() && (spec_has_index_change(entries[i])
                || spec_has_tracked_wt_change(entries[i]))) && (exists|i: int|
            0 <= i < entries.len() && spec_is_untracked(entries[i]))) ==> spec_classify(entries)
            == CleanState::Tainted,
        (!(exists|i: int|
            0 <= i < entries.len() && (spec_has_index_change(entries[i])
                || spec_has_tracked_wt_change(entries[i]))) && !(exists|i: int|
            0 <= i < entries.len() && spec_is_untracked(entries[i]))) ==> spec_classify(entries)
            == CleanState::Clean,
{
}

/// The two-character porcelain code of one status entry: first the
/// index-side letter, then the worktree-side letter; an untracked entry
/// forces both to `?`, and a conflicted entry overrides both to `U`.
pub open spec fn spec_porcelain(f: StatusFlags) -> (char, char) {
    let ic = if f.index_new {
        'A'
    } else if f.index_modified {
        'M'
    } else if f.index_deleted {
        'D'
    } else if f.index_renamed {
        'R'
    } else if f.index_typechange {
        'T'
    } else {
        ' '
    };
    let pair = if f.wt_new {
        ('?', '?')
    } else if f.wt_modified {
        (ic, 'M')
    } else if f.wt_deleted {
        (ic, 'D')
    } else if f.wt_renamed {
        (ic, 'R')
    } else if f.wt_typechange {
        (ic, 'T')
    } else {
        (ic, ' ')
    };
    if f.conflicted {
        ('U', 'U')
    } else {
        pair
    }
}

/// Render one status entry as its two porcelain letters.
pub fn status_to_porcelain(f: &StatusFlags) -> (r: (char, char))
    ensures
        r == spec_porcelain(*f),
{
    let mut index_char: char = ' ';
    let mut worktree_char: char = ' ';
    if f.index_new {
        index_char = 'A';
    } else if f.index_modified {
        index_char = 'M';
    } else if f.index_deleted {
        index_char = 'D';
    } else if f.index_renamed {
        index_char = 'R';
    } else if f.index_typechange {
        index_char = 'T';
    }
    if f.wt_new {
        worktree_char = '?';
        index_char = '?';
    } else if f.wt_modified {
        worktree_char = 'M';
    } else if f.wt_deleted {
        worktree_char = 'D';
    } else if f.wt_renamed {
        worktree_char = 'R';
    } else if f.wt_typechange {
        worktree_char = 'T';
    }
    if f.conflicted {
        index_char = 'U';
        worktree_char = 'U';
    }
    (index_char, worktree_char)
}

/// A flag the status applet does not know.
#[derive(Debug)]
pub struct ArgsError {
    pub flag: String,
}

impl ArgsError {
    /// The diagnostic for this refusal.
    pub fn message(&self) -> (r: String)
        ensures
            r@ == "Unsupported flag: "@ + self.flag@,
    {
        let mut s = String::from_str("Unsupported flag: ");
        s.append(self.flag.as_str());
        s
    }
}

/// The characters of `--no-colors`.
pub open spec fn spec_no_colors_flag() -> Seq<char> {
    seq!['-', '-', 'n', 'o', '-', 'c', 'o', 'l', 'o', 'r', 's']
}

/// The characters of `--no-color`.
pub open spec fn spec_no_color_flag() -> Seq<char> {
    seq!['-', '-', 'n', 'o', '-', 'c', 'o', 'l', 'o', 'r']
}

/// The characters of `-r`.
pub open spec fn spec_r_flag() -> Seq<char> {
    seq!['-', 'r']
}

/// The characters of `--remote`.
pub open spec fn spec_remote_flag() -> Seq<char> {
    seq!['-', '-', 'r', 'e', 'm', 'o', 't', 'e']
}

/// Scan the argument vector from position `i` on: color-disabling and
/// remote flags accumulate into the pair, any other flag is refused, and
/// non-flag arguments are ignored.
pub open spec fn spec_parse_args(args: Seq<Seq<char>>, i: int, acc: (bool, bool)) -> Result<
    (bool, bool),
    Seq<char>,
>
    decreases args.len() - i,
{
    if i < 0 || i >= args.len() {
        Result::Ok(acc)
    } else if args[i] == spec_no_colors_flag() || args[i] == spec_no_color_flag() {
        spec_parse_args(args, i + 1, (true, acc.1))
    } else if args[i] == spec_r_flag() || args[i] == spec_remote_flag() {
        spec_parse_args(args, i + 1, (acc.0, true))
    } else if args[i].len() > 0 && args[i][0] == '-' {
        Result::Err(args[i])
    } else {
        spec_parse_args(args, i + 1, acc)
    }
}

/// Parse the status applet's flags: whether to disable colors and whether
/// to show the upstream comparison. Unknown flags are refused; bare
/// arguments are ignored.
pub fn parse_args(args: &Vec<String>) -> (r: Result<(bool, bool), ArgsError>)
    ensures
        r matches Ok(p) ==> spec_parse_args(args.deep_view(), 1, (false, false)) == Result::<
            (bool, bool),
            Seq<char>,
        >::Ok(p),
        r matches Err(e) ==> spec_parse_args(args.deep_view(), 1, (false, false)) == Result::<
            (bool, bool),
            Seq<char>,
        >::Err(e.flag@),
{
    let ghost av = args.deep_view();
    proof {
        reveal_strlit("--no-colors");
        reveal_strlit("--no-color");
        reveal_strlit("-r");
        reveal_strlit("--remote");
        assert("--no-colors"@ =~= spec_no_colors_flag());
        assert("--no-color"@ =~= spec_no_color_flag());
        assert("-r"@ =~= spec_r_flag());
        assert("--remote"@ =~= spec_remote_flag());
    }
    let n: usize = args.len();
    let mut disable_colors = false;
    let mut show_remote = false;
    let mut i: usize = 1;
    while i < n
        invariant
            n == args@.len(),
            av == args.deep_view(),
            av.len() == n,
            "--no-colors"@ == spec_no_colors_flag(),
            "--no-color"@ == spec_no_color_flag(),
            "-r"@ == spec_r_flag(),
            "--remote"@ == spec_remote_flag(),
            1 <= i <= n + 1,
            spec_parse_args(av, 1, (false, false)) == spec_parse_args(
                av,
                i as int,
                (disable_colors, show_remote),
            ),
        decreases n - i,
    {
        proof {
            assert(av[i as int] == args@[i as int]@);
        }
        if str_eq(args[i].as_str(), "--no-colors") || str_eq(args[i].as_str(), "--no-color") {
            disable_colors = true;
        } else if str_eq(args[i].as_str(), "-r") || str_eq(args[i].as_str(), "--remote") {
            show_remote = true;
        } else {
            let starts_dash = args[i].as_str().unicode_len() > 0 && args[i].as_str().get_char(0)
                == '-';
            if starts_dash {
                let flag = args[i].clone();
                return Err(ArgsError { flag });
            }
        }
        i = i + 1;
    }
    Ok((disable_colors, show_remote))
}

/// The label and style of a cleanliness state.
pub open spec fn spec_state_label(s: CleanState) -> (Seq<char>, Style) {
    match s {
        CleanState::Clean => (seq!['C', 'l', 'e', 'a', 'n'], Style::Green),
        CleanState::Dirty => (seq!['D', 'i', 'r', 't', 'y'], Style::Red),
        CleanState::Tainted => (seq!['T', 'a', 'i', 'n', 't', 'e', 'd'], Style::Yellow),
    }
}

/// The status line: painted state, remote slug (or `<no-remote>`), branch,
/// the decoration group when any tag or remote branch points at the head,
/// and the short commit id, space-separated.
pub open spec fn spec_format_status_line(
    enabled: bool,
    state: CleanState,
    slug: Option<Seq<char>>,
    branch: Seq<char>,
    short_id: Seq<char>,
    head_branch: Seq<char>,
    tags: Seq<Seq<char>>,
    remotes: Seq<Seq<char>>,
) -> Seq<char> {
    let painted = spec_paint(enabled, spec_state_label(state).1, spec_state_label(state).0);
    let slug_text = match slug {
        Option::Some(s) => s,
        Option::None => seq!['<', 'n', 'o', '-', 'r', 'e', 'm', 'o', 't', 'e', '>'],
    };
    let first = painted + seq![' '] + slug_text + seq![' '] + branch;
    let with_deco = if tags.len() > 0 || remotes.len() > 0 {
        let names = seq![
            seq!['H', 'E', 'A', 'D', ' ', '-', '>', ' '] + head_branch,
        ] + remotes + tags;
        first + seq![' ', '('] + spec_join_comma(names) + seq![')']
    } else {
        first
    };
    with_deco + seq![' '] + short_id
}

/// Render the status line from the classification, the remote slug, the
/// branch, the short head id and the collected decorations.
pub fn format_status_line(
    colors: &ColorConfig,
    state: CleanState,
    slug: Option<&String>,
    branch: &str,
    short_id: &str,
    decorations: &Decorations,
) -> (r: String)
    ensures
        r@ == spec_format_status_line(
            colors.enabled,
            state,
            match slug {
                Option::Some(s) => Option::Some(s@),
                Option::None => Option::<Seq<char>>::None,
            },
            branch@,
            short_id@,
            decorations.head_branch@,
            decorations.tags.deep_view(),
            decorations.remote_branches.deep_view(),
        ),
{
    proof {
        reveal_strlit("Clean");
        reveal_strlit("Dirty");
        reveal_strlit("Tainted");
        reveal_strlit("<no-remote>");
        reveal_strlit(" ");
        reveal_strlit("HEAD -> ");
        reveal_strlit(" (");
        reveal_strlit(")");
        reveal_strlit(", ");
        assert("Clean"@ =~= spec_state_label(CleanState::Clean).0);
        assert("Dirty"@ =~= spec_state_label(CleanState::Dirty).0);
        assert("Tainted"@ =~= spec_state_label(CleanState::Tainted).0);
        assert("<no-remote>"@ =~= seq!['<', 'n', 'o', '-', 'r', 'e', 'm', 'o', 't', 'e', '>']);
        assert(" "@ =~= seq![' ']);
        assert("HEAD -> "@ =~= seq!['H', 'E', 'A', 'D', ' ', '-', '>', ' ']);
        assert(" ("@ =~= seq![' ', '(']);
        assert(")"@ =~= seq![')']);
        assert(", "@ =~= seq![',', ' ']);
    }
    let (label, style) = match state {
        CleanState::Clean => ("Clean", Style::Green),
        CleanState::Dirty => ("Dirty", Style::Red),
        CleanState::Tainted => ("Tainted", Style::Yellow),
    };
    let mut out = colors.paint(&style, label);
    out.append(" ");
    match slug {
        Some(s) => out.append(s.as_str()),
        None => out.append("<no-remote>"),
    }
    out.append(" ");
    out.append(branch);
    if decorations.tags.len() > 0 || decorations.remote_branches.len() > 0 {
        out.append(" (");
        let ghost names = seq![
            seq!['H', 'E', 'A', 'D', ' ', '-', '>', ' '] + decorations.head_branch@,
        ] + decorations.remote_branches.deep_view() + decorations.tags.deep_view();
        let ghost prefix = out@;
        let mut head_name = String::from_str("HEAD -> ");
        head_name.append(decorations.head_branch.as_str());
        out.append(head_name.as_str());
        let ghost mut count: int = 1;
        proof {
            assert(names[0] == head_name@);
            assert(names.take(1) =~= seq![head_name@]);
            assert(spec_join_comma(names.take(1)) == head_name@);
        }
        let rn: usize = decorations.remote_branches.len();
        let tn: usize = decorations.tags.len();
        let mut j: usize = 0;
        while j < rn
            invariant
                rn == decorations.remote_branches@.len(),
                tn == decorations.tags@.len(),
                0 <= j <= rn,
                count == 1 + j as int,
                ", "@ == seq![',', ' '],
                names.len() == 1 + rn + tn,
                names == seq![
                    seq!['H', 'E', 'A', 'D', ' ', '-', '>', ' '] + decorations.head_branch@,
                ] + decorations.remote_branches.deep_view() + decorations.tags.deep_view(),
                out@ == prefix + spec_join_comma(names.take(count)),
            decreases rn - j,
        {
            out.append(", ");
            out.append(decorations.remote_branches[j].as_str());
            proof {
                assert(names[count] == decorations.remote_branches@[j as int]@);
                assert(names.take(count + 1).drop_last() =~= names.take(count));
                assert(names.take(count + 1).last() == names[count]);
                count = count + 1;
            }
            j = j + 1;
        }
        let mut t: usize = 0;
        while t < tn
            invariant
                rn == decorations.remote_branches@.len(),
                tn == decorations.tags@.len(),
                0 <= t <= tn,
                count == 1 + rn as int + t as int,
                ", "@ == seq![',', ' '],
                names.len() == 1 + rn + tn,
                names == seq![
                    seq!['H', 'E', 'A', 'D', ' ', '-', '>', ' '] + decorations.head_branch@,
                ] + decorations.remote_branches.deep_view() + decorations.tags.deep_view(),
                out@ == prefix + spec_join_comma(names.take(count)),
            decreases tn - t,
        {
            out.append(", ");
            out.append(decorations.tags[t].as_str());
            proof {
                assert(names[count] == decorations.tags@[t as int]@);
                assert(names.take(count + 1).drop_last() =~= names.take(count));
                assert(names.take(count + 1).last() == names[count]);
                count = count + 1;
            }
            t = t + 1;
        }
        proof {
            assert(names.take(count) =~= names);
        }
        out.append(")");
    }
    out.append(" ");
    out.append(short_id);
    out
}

/// The upstream comparison label of the status applet: up to date, ahead,
/// behind, or diverged, with the counts rendered in decimal.
pub open spec fn spec_remote_state_label(enabled: bool, ahead: int, behind: int) -> Seq<char> {
    if ahead == 0 && behind == 0 {
        spec_paint(enabled, Style::Green, seq!['U', 'p', 'T', 'o', 'D', 'a', 't', 'e'])
    } else if behind == 0 {
        spec_paint(
            enabled,
            Style::Yellow,
            seq!['A', 'h', 'e', 'a', 'd', '('] + spec_dec(ahead) + seq![')'],
        )
    } else if ahead == 0 {
        spec_paint(
            enabled,
            Style::Yellow,
            seq!['B', 'e', 'h', 'i', 'n', 'd', '('] + spec_dec(behind) + seq![')'],
        )
    } else {
        spec_paint(
            enabled,
            Style::Red,
            seq!['D', 'i', 'v', 'e', 'r', 'g', 'e', 'd', '(', '+'] + spec_dec(ahead) + seq![
                '/',
                '-',
            ] + spec_dec(behind) + seq![')'],
        )
    }
}

/// Render the upstream comparison of the status applet from the ahead and
/// behind counts.
pub fn remote_state_label(colors: &ColorConfig, ahead: usize, behind: usize) -> (r: String)
    ensures
        r@ == spec_remote_state_label(colors.enabled, ahead as int, behind as int),
{
    proof {
        reveal_strlit("UpToDate");
        reveal_strlit("Ahead(");
        reveal_strlit("Behind(");
        reveal_strlit("Diverged(+");
        reveal_strlit("/-");
        reveal_strlit(")");
        assert("UpToDate"@ =~= seq!['U', 'p', 'T', 'o', 'D', 'a', 't', 'e']);
        assert("Ahead("@ =~= seq!['A', 'h', 'e', 'a', 'd', '(']);
        assert("Behind("@ =~= seq!['B', 'e', 'h', 'i', 'n', 'd', '(']);
        assert("Diverged(+"@ =~= seq!['D', 'i', 'v', 'e', 'r', 'g', 'e', 'd', '(', '+']);
        assert("/-"@ =~= seq!['/', '-']);
        assert(")"@ =~= seq![')']);
    }
    if ahead == 0 && behind == 0 {
        colors.paint(&Style::Green, "UpToDate")
    } else if behind == 0 {
        let mut label = String::from_str("Ahead(");
        label.append(crate::strutil::dec_u64(ahead as u64).as_str());
        label.append(")");
        colors.paint(&Style::Yellow, label.as_str())
    } else if ahead == 0 {
        let mut label = String::from_str("Behind(");
        label.append(crate::strutil::dec_u64(behind as u64).as_str());
        label.append(")");
        colors.paint(&Style::Yellow, label.as_str())
    } else {
        let mut label = String::from_str("Diverged(+");
        label.append(crate::strutil::dec_u64(ahead as u64).as_str());
        label.append("/-");
        label.append(crate::strutil::dec_u64(behind as u64).as_str());
        label.append(")");
        colors.paint(&Style::Red, label.as_str())
    }
}

/// The upstream comparison label of the audit applet, with its spaced
/// wording.
pub open spec fn spec_audit_remote_label(enabled: bool, ahead: int, behind: int) -> Seq<char> {
    if ahead > 0 && behind > 0 {
        spec_paint(
            enabled,
            Style::Red,
            seq!['D', 'i', 'v', 'e', 'r', 'g', 'e', 'd', ' ', '(', 'a', 'h', 'e', 'a', 'd', ' ']
                + spec_dec(ahead) + seq![',', ' ', 'b', 'e', 'h', 'i', 'n', 'd', ' '] + spec_dec(
                behind,
            ) + seq![')'],
        )
    } else if ahead > 0 {
        spec_paint(
            enabled,
            Style::Yellow,
            seq!['A', 'h', 'e', 'a', 'd', ' ', '('] + spec_dec(ahead) + seq![')'],
        )
    } else if behind > 0 {
        spec_paint(
            enabled,
            Style::Yellow,
            seq!['B', 'e', 'h', 'i', 'n', 'd', ' ', '('] + spec_dec(behind) + seq![')'],
        )
    } else {
        spec_paint(enabled, Style::Green, seq!['U', 'p', 'T', 'o', 'D', 'a', 't', 'e'])
    }
}

/// Render the upstream comparison of the audit applet from the ahead and
/// behind counts.
pub fn audit_remote_label(colors: &ColorConfig, ahead: usize, behind: usize) -> (r: String)
    ensures
        r@ == spec_audit_remote_label(colors.enabled, ahead as int, behind as int),
{
    proof {
        reveal_strlit("UpToDate");
        reveal_strlit("Diverged (ahead ");
        reveal_strlit(", behind ");
        reveal_strlit("Ahead (");
        reveal_strlit("Behind (");
        reveal_strlit(")");
        assert("UpToDate"@ =~= seq!['U', 'p', 'T', 'o', 'D', 'a', 't', 'e']);
        assert("Diverged (ahead "@ =~= seq![
            'D', 'i', 'v', 'e', 'r', 'g', 'e', 'd', ' ', '(', 'a', 'h', 'e', 'a', 'd', ' ',
        ]);
        assert(", behind "@ =~= seq![',', ' ', 'b', 'e', 'h', 'i', 'n', 'd', ' ']);
        assert("Ahead ("@ =~= seq!['A', 'h', 'e', 'a', 'd', ' ', '(']);
        assert("Behind ("@ =~= seq!['B', 'e', 'h', 'i', 'n', 'd', ' ', '(']);
        assert(")"@ =~= seq![')']);
    }
    if ahead > 0 && behind > 0 {
        let mut label = String::from_str("Diverged (ahead ");
        label.append(crate::strutil::dec_u64(ahead as u64).as_str());
        label.append(", behind ");
        label.append(crate::strutil::dec_u64(behind as u64).as_str());
        label.append(")");
        colors.paint(&Style::Red, label.as_str())
    } else if ahead > 0 {
        let mut label = String::from_str("Ahead (");
        label.append(crate::strutil::dec_u64(ahead as u64).as_str());
        label.append(")");
        colors.paint(&Style::Yellow, label.as_str())
    } else if behind > 0 {
        let mut label = String::from_str("Behind (");
        label.append(crate::strutil::dec_u64(behind as u64).as_str());
        label.append(")");
        colors.paint(&Style::Yellow, label.as_str())
    } else {
        colors.paint(&Style::Green, "UpToDate")
    }
}

/// The audit applet's status line: painted state, the remote's `org/repo`
/// slug (or `no-remote`), branch and short id, joined with pipes.
pub open spec fn spec_format_audit_line(
    enabled: bool,
    state: CleanState,
    remote_info: Option<Seq<char>>,
    branch: Seq<char>,
    short_id: Seq<char>,
) -> Seq<char> {
    let painted = spec_paint(enabled, spec_state_label(state).1, spec_state_label(state).0);
    let remote = match remote_info {
        Option::Some(s) => s,
        Option::None => seq!['n', 'o', '-', 'r', 'e', 'm', 'o', 't', 'e'],
    };
    painted + seq![' ', '|', ' '] + remote + seq![' ', '|', ' '] + branch + seq![' ', '|', ' ']
        + short_id
}

/// Render the audit applet's status line.
pub fn format_audit_line(
    colors: &ColorConfig,
    state: CleanState,
    remote_info: Option<&String>,
    branch: &str,
    short_id: &str,
) -> (r: String)
    ensures
        r@ == spec_format_audit_line(
            colors.enabled,
            state,
            match remote_info {
                Option::Some(s) => Option::Some(s@),
                Option::None => Option::<Seq<char>>::None,
            },
            branch@,
            short_id@,
        ),
{
    proof {
        reveal_strlit("Clean");
        reveal_strlit("Dirty");
        reveal_strlit("Tainted");
        reveal_strlit("no-remote");
        reveal_strlit(" | ");
        assert("Clean"@ =~= spec_state_label(CleanState::Clean).0);
        assert("Dirty"@ =~= spec_state_label(CleanState::Dirty).0);
        assert("Tainted"@ =~= spec_state_label(CleanState::Tainted).0);
        assert("no-remote"@ =~= seq!['n', 'o', '-', 'r', 'e', 'm', 'o', 't', 'e']);
        assert(" | "@ =~= seq![' ', '|', ' ']);
    }
    let (label, style) = match state {
        CleanState::Clean => ("Clean", Style::Green),
        CleanState::Dirty => ("Dirty", Style::Red),
        CleanState::Tainted => ("Tainted", Style::Yellow),
    };
    let mut out = colors.paint(&style, label);
    out.append(" | ");
    match remote_info {
        Some(s) => out.append(s.as_str()),
        None => out.append("no-remote"),
    }
    out.append(" | ");
    out.append(branch);
    out.append(" | ");
    out.append(short_id);
    out
}

} // verus!
