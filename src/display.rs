//! The short texts that describe a record in a listing: its display name
//! and its flags.

use vstd::prelude::*;
use crate::paths::{file_name_of, path_file_name};
use crate::resolve::{branch_short, views, worktree_branch_short};
use crate::worktree::{opt_view, Worktree, WorktreeModel};
use vstd::utf8::encode_utf8;

verus! {

/// The names of the flags set on `w`, in the order detached, locked,
/// prunable.
pub open spec fn flag_words(w: WorktreeModel) -> Seq<Seq<char>> {
    (if w.detached {
        seq!["detached"@]
    } else {
        Seq::empty()
    }) + (if w.locked {
        seq!["locked"@]
    } else {
        Seq::empty()
    }) + (if w.prunable is Some {
        seq!["prunable"@]
    } else {
        Seq::empty()
    })
}

/// The words of `ws` with `sep` between each two.
pub open spec fn joined(ws: Seq<Seq<char>>, sep: Seq<char>) -> Seq<char>
    decreases ws.len(),
{
    if ws.len() == 0 {
        Seq::empty()
    } else if ws.len() == 1 {
        ws[0]
    } else {
        joined(ws.drop_last(), sep) + sep + ws.last()
    }
}

/// The flags column of `w`: its flags joined by commas, or `-` when it has
/// none.
pub open spec fn flags_text(w: WorktreeModel) -> Seq<char> {
    if flag_words(w).len() == 0 {
        "-"@
    } else {
        joined(flag_words(w), ","@)
    }
}

/// The display name of `w`, given the final component of its path: its
/// short branch name, else that component, else `-`.
pub open spec fn name_from(w: WorktreeModel, file_name: Option<Seq<char>>) -> Seq<char> {
    match branch_short(w) {
        Some(b) => b,
        None => match file_name {
            Some(n) => n,
            None => "-"@,
        },
    }
}

/// The display name of `w`.
pub open spec fn display_name(w: WorktreeModel) -> Seq<char> {
    name_from(w, file_name_of(w.path))
}

/// The words of `words` with `sep` between each two.
pub fn join_strings(words: &Vec<String>, sep: &str) -> (r: String)
    ensures
        r@ == joined(views(words@), sep@),
{
    let n = words.len();
    if n == 0 {
        return String::new();
    }
    let mut out = words[0].clone();
    let mut i: usize = 1;
    assert(views(words@).take(1) =~= seq![words@[0]@]);
    while i < n
        invariant
            n == words@.len(),
            1 <= i <= n,
            out@ == joined(views(words@).take(i as int), sep@),
        decreases n - i,
    {
        let ghost ws = views(words@).take(i as int + 1);
        assert(ws.drop_last() =~= views(words@).take(i as int));
        out.append(sep);
        out.append(words[i].as_str());
        i = i + 1;
    }
    assert(views(words@).take(n as int) =~= views(words@));
    out
}

/// The flags of `wt` joined by commas (`detached`, `locked`, `prunable`, in
/// that order), or `-` when none is set.
pub fn worktree_flags(wt: &Worktree) -> (r: String)
    ensures
        r@ == flags_text(wt@),
{
    let mut words: Vec<String> = Vec::new();
    let ghost mut expect: Seq<Seq<char>> = Seq::empty();
    if wt.detached {
        words.push(String::from_str("detached"));
        proof {
            expect = expect + seq!["detached"@];
        }
    }
    if wt.locked {
        words.push(String::from_str("locked"));
        proof {
            expect = expect + seq!["locked"@];
        }
    }
    if wt.prunable.is_some() {
        words.push(String::from_str("prunable"));
        proof {
            expect = expect + seq!["prunable"@];
        }
    }
    assert(views(words@) =~= expect);
    assert(expect =~= flag_words(wt@));
    if words.len() == 0 {
        return String::from_str("-");
    }
    join_strings(&words, ",")
}

/// The display name of `wt` when the final component of its path is
/// `file_name`.
pub fn worktree_name_from(wt: &Worktree, file_name: Option<String>) -> (r: String)
    ensures
        r@ == name_from(wt@, opt_view(file_name)),
{
    match worktree_branch_short(wt) {
        Some(b) => String::from_str(b),
        None => match file_name {
            Some(n) => n,
            None => String::from_str("-"),
        },
    }
}

/// The display name of `wt`: its short branch name, else the final
/// component of its path, else `-`.
pub fn worktree_name(wt: &Worktree) -> (r: String)
    ensures
        r@ == display_name(wt@),
{
    let file_name = path_file_name(wt.path.as_str());
    worktree_name_from(wt, file_name)
}

/// One line of the worktree table, before padding.
pub struct TableRow {
    pub name: String,
    pub branch: String,
    pub path: String,
    pub flags: String,
}

/// The length of `s` in UTF-8 bytes.
pub open spec fn byte_len(s: Seq<char>) -> nat {
    encode_utf8(s).len()
}

/// The widest byte length among `cols`, and at least `floor`.
pub open spec fn column_width(cols: Seq<Seq<char>>, floor: nat) -> nat
    decreases cols.len(),
{
    if cols.len() == 0 {
        floor
    } else {
        let w = column_width(cols.drop_last(), floor);
        if byte_len(cols.last()) > w {
            byte_len(cols.last())
        } else {
            w
        }
    }
}

/// `s` followed by spaces up to `w` characters.
pub open spec fn pad(s: Seq<char>, w: nat) -> Seq<char> {
    if s.len() < w {
        s + Seq::new((w - s.len()) as nat, |i: int| ' ')
    } else {
        s
    }
}

/// A table line: the name and branch padded to their column widths, then
/// the path and the flags, separated by single spaces.
pub open spec fn table_line(
    name: Seq<char>,
    branch: Seq<char>,
    path: Seq<char>,
    flags: Seq<char>,
    name_width: nat,
    branch_width: nat,
) -> Seq<char> {
    pad(name, name_width) + " "@ + pad(branch, branch_width) + " "@ + path + " "@ + flags
}

/// The name column of `rows`.
pub open spec fn row_names(rows: Seq<TableRow>) -> Seq<Seq<char>> {
    rows.map_values(|r: TableRow| r.name@)
}

/// The branch column of `rows`.
pub open spec fn row_branches(rows: Seq<TableRow>) -> Seq<Seq<char>> {
    rows.map_values(|r: TableRow| r.branch@)
}

/// The lines of the table of `rows`: a header, then one line per row, with
/// the name column at least 4 wide and the branch column at least 6.
pub open spec fn table_text(rows: Seq<TableRow>) -> Seq<Seq<char>> {
    let nw = column_width(row_names(rows), 4);
    let bw = column_width(row_branches(rows), 6);
    seq![table_line("NAME"@, "BRANCH"@, "PATH"@, "FLAGS"@, nw, bw)] + rows.map_values(
        |r: TableRow| table_line(r.name@, r.branch@, r.path@, r.flags@, nw, bw),
    )
}

/// The widest byte length among the names of `rows` (the branches when
/// `names` is false), and at least `floor`.
fn widest(rows: &Vec<TableRow>, names: bool, floor: usize) -> (r: usize)
    ensures
        r == column_width(
            if names {
                row_names(rows@)
            } else {
                row_branches(rows@)
            },
            floor as nat,
        ),
{
    let ghost cols = if names {
        row_names(rows@)
    } else {
        row_branches(rows@)
    };
    let mut w = floor;
    let mut i: usize = 0;
    while i < rows.len()
        invariant
            i <= rows@.len(),
            cols == (if names {
                row_names(rows@)
            } else {
                row_branches(rows@)
            }),
            w == column_width(cols.take(i as int), floor as nat),
        decreases rows@.len() - i,
    {
        let s = if names {
            rows[i].name.as_str()
        } else {
            rows[i].branch.as_str()
        };
        let n = s.as_bytes().len();
        assert(cols.take(i + 1).drop_last() =~= cols.take(i as int));
        assert(cols.take(i + 1).last() == s@);
        assert(n as nat == byte_len(s@));
        if n > w {
            w = n;
        }
        i = i + 1;
    }
    assert(cols.take(rows@.len() as int) =~= cols);
    w
}

/// `s` followed by spaces up to `width` characters.
fn padded(s: &str, width: usize) -> (r: String)
    ensures
        r@ == pad(s@, width as nat),
{
    let n = s.unicode_len();
    let mut out = String::from_str(s);
    if n >= width {
        return out;
    }
    let mut i: usize = n;
    while i < width
        invariant
            n == s@.len(),
            n <= i <= width,
            out@ == s@ + Seq::new((i - n) as nat, |k: int| ' '),
        decreases width - i,
    {
        let ghost before = out@;
        out.append(" ");
        assert(out@ == before + " "@);
        proof {
            reveal_strlit(" ");
        }
        assert(" "@.len() == 1 && " "@[0] == ' ');
        assert(out@ =~= s@ + Seq::new((i + 1 - n) as nat, |k: int| ' '));
        i = i + 1;
    }
    out
}

/// One line of the table.
fn line_of(
    name: &str,
    branch: &str,
    path: &str,
    flags: &str,
    name_width: usize,
    branch_width: usize,
) -> (r: String)
    ensures
        r@ == table_line(name@, branch@, path@, flags@, name_width as nat, branch_width as nat),
{
    let mut out = padded(name, name_width);
    out.append(" ");
    let b = padded(branch, branch_width);
    out.append(b.as_str());
    out.append(" ");
    out.append(path);
    out.append(" ");
    out.append(flags);
    out
}

/// The lines of the table of `rows`: a header, then one line per row, the
/// name and branch columns padded to their widest entry (at least 4 and 6
/// bytes).
pub fn table_lines(rows: &Vec<TableRow>) -> (r: Vec<String>)
    ensures
        views(r@) == table_text(rows@),
{
    let nw = widest(rows, true, 4);
    let bw = widest(rows, false, 6);
    let mut out: Vec<String> = Vec::new();
    out.push(line_of("NAME", "BRANCH", "PATH", "FLAGS", nw, bw));
    let ghost f = |r: TableRow|
        table_line(r.name@, r.branch@, r.path@, r.flags@, nw as nat, bw as nat);
    let mut i: usize = 0;
    while i < rows.len()
        invariant
            i <= rows@.len(),
            nw == column_width(row_names(rows@), 4),
            bw == column_width(row_branches(rows@), 6),
            f == (|r: TableRow|
                table_line(r.name@, r.branch@, r.path@, r.flags@, nw as nat, bw as nat)),
            views(out@) == seq![table_line("NAME"@, "BRANCH"@, "PATH"@, "FLAGS"@, nw as nat, bw as nat)]
                + rows@.take(i as int).map_values(f),
        decreases rows@.len() - i,
    {
        let row = &rows[i];
        let line = line_of(
            row.name.as_str(),
            row.branch.as_str(),
            row.path.as_str(),
            row.flags.as_str(),
            nw,
            bw,
        );
        let ghost before = out@;
        out.push(line);
        assert(views(out@) =~= views(before).push(f(rows@[i as int])));
        assert(rows@.take(i + 1).map_values(f) =~= rows@.take(i as int).map_values(f).push(
            f(rows@[i as int]),
        ));
        i = i + 1;
    }
    assert(rows@.take(rows@.len() as int) =~= rows@);
    out
}

/// The table row of `wt`: its display name, its short branch name or `-`,
/// its path and its flags.
pub fn worktree_row(wt: &Worktree) -> (r: TableRow)
    ensures
        r.name@ == display_name(wt@),
        r.branch@ == match branch_short(wt@) {
            Some(b) => b,
            None => "-"@,
        },
        r.path@ == wt.path@,
        r.flags@ == flags_text(wt@),
{
    let branch = match worktree_branch_short(wt) {
        Some(b) => String::from_str(b),
        None => String::from_str("-"),
    };
    TableRow {
        name: worktree_name(wt),
        branch,
        path: wt.path.clone(),
        flags: worktree_flags(wt),
    }
}

/// The lines of the listing table of `worktrees`, one row per record in
/// order, after a header.
pub fn worktree_table(worktrees: &Vec<Worktree>) -> (r: Vec<String>)
    ensures
        exists|rows: Seq<TableRow>|
            rows.len() == worktrees@.len() && views(r@) == table_text(rows) && forall|i: int|
                0 <= i < rows.len() ==> #[trigger] rows[i].name@ == display_name(worktrees@[i]@)
                    && rows[i].path@ == worktrees@[i].path@ && rows[i].flags@ == flags_text(
                    worktrees@[i]@,
                ) && rows[i].branch@ == match branch_short(worktrees@[i]@) {
                    Some(b) => b,
                    None => "-"@,
                },
{
    let mut rows: Vec<TableRow> = Vec::new();
    let mut i: usize = 0;
    while i < worktrees.len()
        invariant
            i <= worktrees@.len(),
            rows@.len() == i,
            forall|j: int|
                0 <= j < i ==> #[trigger] rows@[j].name@ == display_name(worktrees@[j]@)
                    && rows@[j].path@ == worktrees@[j].path@ && rows@[j].flags@ == flags_text(
                    worktrees@[j]@,
                ) && rows@[j].branch@ == match branch_short(worktrees@[j]@) {
                    Some(b) => b,
                    None => "-"@,
                },
        decreases worktrees@.len() - i,
    {
        let ghost before = rows@;
        let row = worktree_row(&worktrees[i]);
        rows.push(row);
        assert forall|j: int| 0 <= j < i + 1 implies #[trigger] rows@[j].name@ == display_name(
            worktrees@[j]@,
        ) && rows@[j].path@ == worktrees@[j].path@ && rows@[j].flags@ == flags_text(
            worktrees@[j]@,
        ) && rows@[j].branch@ == match branch_short(worktrees@[j]@) {
            Some(b) => b,
            None => "-"@,
        } by {
            if j < i {
                assert(rows@[j] == before[j]);
            } else {
                assert(rows@[j] == row);
            }
        }
        i = i + 1;
    }
    table_lines(&rows)
}

} // verus!
