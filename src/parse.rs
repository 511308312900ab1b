//! The parser of the porcelain worktree listing.
//!
//! A listing is a sequence of lines. A line that starts with `worktree `
//! opens a new record; the lines after it, up to the next such line, set the
//! fields of that record. Lines before the first record, and lines that no
//! rule recognises, are ignored.

use vstd::prelude::*;
use crate::text::{
    chars_of, equals_at, has_prefix_at, is_white_space, string_of, trim, trim_end, trim_start,
    trimmed_bounds,
};
use crate::worktree::{fresh_model, models, Worktree, WorktreeModel};

verus! {

/// The lines of `s`: the pieces between its newline characters.
pub open spec fn split_lines(s: Seq<char>) -> Seq<Seq<char>>
    decreases s.len(),
{
    if s.len() == 0 {
        seq![Seq::empty()]
    } else {
        let rest = split_lines(s.drop_last());
        if s.last() == '\n' {
            rest.push(Seq::empty())
        } else {
            rest.update(rest.len() - 1, rest.last().push(s.last()))
        }
    }
}

/// The trimmed rest of `line` after a prefix of `n` characters.
pub open spec fn value_after(line: Seq<char>, n: int) -> Seq<char> {
    trim(line.skip(n))
}

/// The effect of one line of a stanza on the record it belongs to.
pub open spec fn apply_field(w: WorktreeModel, line: Seq<char>) -> WorktreeModel {
    if "HEAD "@.is_prefix_of(line) {
        WorktreeModel { head: Some(value_after(line, 5)), ..w }
    } else if "branch "@.is_prefix_of(line) {
        WorktreeModel { branch: Some(value_after(line, 7)), ..w }
    } else if trim(line) == "detached"@ {
        WorktreeModel { detached: true, ..w }
    } else if trim(line) == "locked"@ {
        WorktreeModel { locked: true, ..w }
    } else if "prunable "@.is_prefix_of(line) {
        WorktreeModel { prunable: Some(value_after(line, 9)), ..w }
    } else {
        w
    }
}

/// What the parser holds between lines: the finished records and the one
/// being built, if any.
pub struct ParseState {
    pub done: Seq<WorktreeModel>,
    pub current: Option<WorktreeModel>,
}

/// The finished records, with the one being built appended.
pub open spec fn flush(st: ParseState) -> Seq<WorktreeModel> {
    match st.current {
        Some(w) => st.done.push(w),
        None => st.done,
    }
}

/// The effect of one line on the parser's state.
pub open spec fn step(st: ParseState, line: Seq<char>) -> ParseState {
    if "worktree "@.is_prefix_of(line) {
        ParseState { done: flush(st), current: Some(fresh_model(value_after(line, 9))) }
    } else {
        match st.current {
            Some(w) => ParseState { done: st.done, current: Some(apply_field(w, line)) },
            None => st,
        }
    }
}

/// The state after reading `lines` in order from the empty state.
pub open spec fn state_after(lines: Seq<Seq<char>>) -> ParseState
    decreases lines.len(),
{
    if lines.len() == 0 {
        ParseState { done: Seq::empty(), current: None }
    } else {
        step(state_after(lines.drop_last()), lines.last())
    }
}

/// The records that the lines `lines` describe, in order.
pub open spec fn records_of(lines: Seq<Seq<char>>) -> Seq<WorktreeModel> {
    flush(state_after(lines))
}

/// The records of the listing `s`, in listing order.
pub open spec fn parse_listing(s: Seq<char>) -> Seq<WorktreeModel> {
    records_of(split_lines(s))
}

/// Whether `line` opens a record.
pub open spec fn is_marker(line: Seq<char>) -> bool {
    "worktree "@.is_prefix_of(line)
}

/// The lines of `lines` that open a record, in order.
pub open spec fn markers(lines: Seq<Seq<char>>) -> Seq<Seq<char>>
    decreases lines.len(),
{
    if lines.len() == 0 {
        Seq::empty()
    } else if is_marker(lines.last()) {
        markers(lines.drop_last()).push(lines.last())
    } else {
        markers(lines.drop_last())
    }
}

/// The record that a stanza's field lines `rest` make of `w`.
pub open spec fn fill(w: WorktreeModel, rest: Seq<Seq<char>>) -> WorktreeModel
    decreases rest.len(),
{
    if rest.len() == 0 {
        w
    } else {
        apply_field(fill(w, rest.drop_last()), rest.last())
    }
}

proof fn lemma_markers_state(lines: Seq<Seq<char>>)
    ensures
        records_of(lines).len() == markers(lines).len(),
        state_after(lines).current is Some <==> markers(lines).len() > 0,
        forall|k: int|
            0 <= k < markers(lines).len() ==> #[trigger] records_of(lines)[k].path == value_after(
                markers(lines)[k],
                9,
            ),
    decreases lines.len(),
{
    if lines.len() > 0 {
        let prev = lines.drop_last();
        lemma_markers_state(prev);
        let st = state_after(prev);
        let l = lines.last();
        if !is_marker(l) {
            match st.current {
                Some(w) => {
                    assert(records_of(lines) == st.done.push(apply_field(w, l)));
                    assert(records_of(prev) == st.done.push(w));
                    assert forall|k: int| 0 <= k < markers(lines).len() implies #[trigger] records_of(
                        lines,
                    )[k].path == value_after(markers(lines)[k], 9) by {
                        assert(markers(lines) == markers(prev));
                        if k < st.done.len() {
                            assert(records_of(lines)[k] == records_of(prev)[k]);
                        } else {
                            assert(apply_field(w, l).path == w.path);
                            assert(records_of(prev)[k] == w);
                        }
                    }
                },
                None => {},
            }
        }
    }
}

/// One record per line that opens one: the listing `s` gives as many
/// records as it has `worktree ` lines, in the order of those lines, each
/// at the trimmed path that its line names.
pub proof fn lemma_one_record_per_marker(s: Seq<char>)
    ensures
        parse_listing(s).len() == markers(split_lines(s)).len(),
        forall|k: int|
            0 <= k < parse_listing(s).len() ==> #[trigger] parse_listing(s)[k].path == value_after(
                markers(split_lines(s))[k],
                9,
            ),
{
    lemma_markers_state(split_lines(s));
}

proof fn lemma_state_append(a: Seq<Seq<char>>, b: Seq<Seq<char>>)
    requires
        b.len() > 0,
        is_marker(b[0]),
    ensures
        state_after(a + b) == (ParseState {
            done: records_of(a) + state_after(b).done,
            current: state_after(b).current,
        }),
    decreases b.len(),
{
    assert((a + b).last() == b.last());
    if b.len() == 1 {
        assert((a + b).drop_last() =~= a);
        assert(b.last() == b[0]);
        assert(b.drop_last() =~= Seq::<Seq<char>>::empty());
        assert(state_after(b) == step(state_after(Seq::<Seq<char>>::empty()), b[0]));
        assert(b.drop_last() =~= Seq::<Seq<char>>::empty());
        assert(records_of(a) + Seq::<WorktreeModel>::empty() =~= records_of(a));
    } else {
        let b2 = b.drop_last();
        assert((a + b).drop_last() =~= a + b2);
        assert(b2[0] == b[0]);
        lemma_state_append(a, b2);
        let sb = state_after(b2);
        let l = b.last();
        if is_marker(l) {
            match sb.current {
                Some(w) => {
                    assert(records_of(a) + sb.done.push(w) =~= (records_of(a) + sb.done).push(w));
                },
                None => {},
            }
        }
    }
}

/// The records of lines `a` followed by lines `b` that begin with a
/// `worktree ` line are the records of `a` followed by those of `b`.
pub proof fn lemma_records_append(a: Seq<Seq<char>>, b: Seq<Seq<char>>)
    requires
        b.len() > 0,
        is_marker(b[0]),
    ensures
        records_of(a + b) == records_of(a) + records_of(b),
{
    lemma_state_append(a, b);
    let sb = state_after(b);
    match sb.current {
        Some(w) => {
            assert(records_of(a) + sb.done.push(w) =~= (records_of(a) + sb.done).push(w));
        },
        None => {},
    }
}

proof fn lemma_stanza_state(m: Seq<char>, rest: Seq<Seq<char>>)
    requires
        is_marker(m),
        forall|i: int| 0 <= i < rest.len() ==> !is_marker(#[trigger] rest[i]),
    ensures
        state_after(seq![m] + rest) == (ParseState {
            done: Seq::empty(),
            current: Some(fill(fresh_model(value_after(m, 9)), rest)),
        }),
    decreases rest.len(),
{
    if rest.len() == 0 {
        assert(seq![m] + rest =~= seq![m]);
        assert(seq![m].drop_last() =~= Seq::<Seq<char>>::empty());
        assert(seq![m].last() == m);
        assert(state_after(seq![m]) == step(state_after(Seq::<Seq<char>>::empty()), m));
    } else {
        let r2 = rest.drop_last();
        assert((seq![m] + rest).drop_last() =~= seq![m] + r2);
        assert((seq![m] + rest).last() == rest.last());
        assert(forall|i: int| 0 <= i < r2.len() ==> r2[i] == rest[i]);
        assert(!is_marker(rest[rest.len() - 1]));
        lemma_stanza_state(m, r2);
    }
}

/// A stanza, a `worktree ` line `m` followed by lines `rest` of which none
/// opens a record, makes the single record that its lines fill in.
pub proof fn lemma_stanza_record(m: Seq<char>, rest: Seq<Seq<char>>)
    requires
        is_marker(m),
        forall|i: int| 0 <= i < rest.len() ==> !is_marker(#[trigger] rest[i]),
    ensures
        records_of(seq![m] + rest) == seq![fill(fresh_model(value_after(m, 9)), rest)],
{
    lemma_stanza_state(m, rest);
    assert(Seq::<WorktreeModel>::empty().push(fill(fresh_model(value_after(m, 9)), rest))
        =~= seq![fill(fresh_model(value_after(m, 9)), rest)]);
}

/// Whether `line` is the `detached` keyword line.
pub open spec fn is_detached_line(line: Seq<char>) -> bool {
    trim(line) == "detached"@
}

/// Whether `line` is a `branch ` line.
pub open spec fn is_branch_line(line: Seq<char>) -> bool {
    "branch "@.is_prefix_of(line)
}

proof fn lemma_trim_end_prefix(s: Seq<char>)
    ensures
        trim_end(s).len() <= s.len(),
        forall|i: int| 0 <= i < trim_end(s).len() ==> trim_end(s)[i] == s[i],
    decreases s.len(),
{
    if s.len() > 0 && is_white_space(s.last()) {
        lemma_trim_end_prefix(s.drop_last());
        assert forall|i: int| 0 <= i < trim_end(s).len() implies trim_end(s)[i] == s[i] by {
            assert(s.drop_last()[i] == s[i]);
        }
    }
}

proof fn lemma_trim_start_len(s: Seq<char>)
    ensures
        trim_start(s).len() <= s.len(),
    decreases s.len(),
{
    if s.len() > 0 && is_white_space(s[0]) {
        lemma_trim_start_len(s.drop_first());
    }
}

/// A line whose trimmed text is non-empty starts with white space or with
/// the first character of that text.
proof fn lemma_trim_first(s: Seq<char>)
    requires
        trim(s).len() > 0,
    ensures
        s.len() > 0,
        is_white_space(s[0]) || s[0] == trim(s)[0],
{
    lemma_trim_start_len(s);
    lemma_trim_end_prefix(trim_start(s));
    if !is_white_space(s[0]) {
        assert(trim_start(s) == s);
    }
}

proof fn lemma_prefix_first(p: Seq<char>, l: Seq<char>)
    requires
        p.is_prefix_of(l),
        p.len() > 0,
    ensures
        l[0] == p[0],
{
    assert(l.subrange(0, p.len() as int)[0] == l[0]);
}

proof fn lemma_detached_line_is_keyword(l: Seq<char>)
    requires
        is_detached_line(l),
    ensures
        !"HEAD "@.is_prefix_of(l),
        !is_branch_line(l),
{
    reveal_strlit("detached");
    reveal_strlit("HEAD ");
    reveal_strlit("branch ");
    lemma_trim_first(l);
    if "HEAD "@.is_prefix_of(l) {
        lemma_prefix_first("HEAD "@, l);
    }
    if is_branch_line(l) {
        lemma_prefix_first("branch "@, l);
    }
}

proof fn lemma_fill_flags(w: WorktreeModel, rest: Seq<Seq<char>>)
    ensures
        fill(w, rest).path == w.path,
        fill(w, rest).detached <==> (w.detached || exists|i: int|
            0 <= i < rest.len() && is_detached_line(#[trigger] rest[i])),
        fill(w, rest).branch is None <==> (w.branch is None && forall|i: int|
            0 <= i < rest.len() ==> !is_branch_line(#[trigger] rest[i])),
    decreases rest.len(),
{
    if rest.len() > 0 {
        let r2 = rest.drop_last();
        let l = rest.last();
        lemma_fill_flags(w, r2);
        reveal_strlit("HEAD ");
        reveal_strlit("branch ");
        if is_detached_line(l) {
            lemma_detached_line_is_keyword(l);
        }
        if "HEAD "@.is_prefix_of(l) {
            lemma_prefix_first("HEAD "@, l);
            if is_branch_line(l) {
                lemma_prefix_first("branch "@, l);
            }
        }
        assert(forall|i: int| 0 <= i < r2.len() ==> r2[i] == rest[i]);
        if fill(w, rest).detached && !w.detached && !is_detached_line(l) {
            let i = choose|i: int| 0 <= i < r2.len() && is_detached_line(#[trigger] r2[i]);
            assert(rest[i] == r2[i]);
        }
        if is_detached_line(l) {
            assert(is_detached_line(rest[rest.len() - 1]));
        }
        if is_branch_line(l) {
            assert(is_branch_line(rest[rest.len() - 1]));
        }
        if !w.detached && fill(w, r2).detached == false {
            assert forall|i: int| 0 <= i < r2.len() implies !is_detached_line(#[trigger] rest[i]) by {
                assert(rest[i] == r2[i]);
            }
        }
    }
}

proof fn lemma_fill_branch(w: WorktreeModel, rest: Seq<Seq<char>>, i: int)
    requires
        0 <= i < rest.len(),
        is_branch_line(rest[i]),
        forall|j: int| i < j < rest.len() ==> !is_branch_line(#[trigger] rest[j]),
    ensures
        fill(w, rest).branch == Some(value_after(rest[i], 7)),
    decreases rest.len(),
{
    let r2 = rest.drop_last();
    let l = rest.last();
    reveal_strlit("HEAD ");
    reveal_strlit("branch ");
    if "HEAD "@.is_prefix_of(l) {
        lemma_prefix_first("HEAD "@, l);
        if is_branch_line(l) {
            lemma_prefix_first("branch "@, l);
        }
    }
    if i < rest.len() - 1 {
        assert(r2[i] == rest[i]);
        assert forall|j: int| i < j < r2.len() implies !is_branch_line(#[trigger] r2[j]) by {
            assert(r2[j] == rest[j]);
        }
        lemma_fill_branch(w, r2, i);
        assert(!is_branch_line(rest[rest.len() - 1]));
    } else {
        assert(l == rest[i]);
    }
}

/// A stanza of a listing, a `worktree ` line `m` followed by field lines
/// `rest` up to the next `worktree ` line or the end, gives a record that is
/// detached exactly when some field line reads `detached`, and that has no
/// branch exactly when no field line starts with `branch `; when it has one,
/// its branch is the trimmed value of the last such line. So a stanza
/// with `detached` and no `branch` line has no branch and is detached, and
/// one with a `branch` line and no `detached` line has a branch and is not
/// detached.
pub proof fn lemma_stanza_branch_detached(
    s: Seq<char>,
    pre: Seq<Seq<char>>,
    m: Seq<char>,
    rest: Seq<Seq<char>>,
    post: Seq<Seq<char>>,
)
    requires
        split_lines(s) == pre + (seq![m] + rest) + post,
        is_marker(m),
        forall|i: int| 0 <= i < rest.len() ==> !is_marker(#[trigger] rest[i]),
        post.len() == 0 || is_marker(post[0]),
    ensures
        records_of(pre).len() < parse_listing(s).len(),
        parse_listing(s)[records_of(pre).len() as int].path == value_after(m, 9),
        parse_listing(s)[records_of(pre).len() as int].detached <==> exists|i: int|
            0 <= i < rest.len() && is_detached_line(#[trigger] rest[i]),
        parse_listing(s)[records_of(pre).len() as int].branch is None <==> forall|i: int|
            0 <= i < rest.len() ==> !is_branch_line(#[trigger] rest[i]),
        forall|i: int|
            0 <= i < rest.len() && is_branch_line(#[trigger] rest[i]) && (forall|j: int|
                i < j < rest.len() ==> !is_branch_line(#[trigger] rest[j])) ==> parse_listing(
                s,
            )[records_of(pre).len() as int].branch == Some(value_after(rest[i], 7)),
{
    let stanza = seq![m] + rest;
    let rec = fill(fresh_model(value_after(m, 9)), rest);
    assert(stanza[0] == m);
    lemma_stanza_record(m, rest);
    lemma_records_append(pre, stanza);
    if post.len() == 0 {
        assert(pre + stanza + post =~= pre + stanza);
    } else {
        lemma_records_append(pre + stanza, post);
    }
    let n = records_of(pre).len() as int;
    assert(parse_listing(s)[n] == rec);
    lemma_fill_flags(fresh_model(value_after(m, 9)), rest);
    assert forall|i: int|
        0 <= i < rest.len() && is_branch_line(#[trigger] rest[i]) && (forall|j: int|
            i < j < rest.len() ==> !is_branch_line(#[trigger] rest[j])) implies rec.branch == Some(
        value_after(rest[i], 7),
    ) by {
        lemma_fill_branch(fresh_model(value_after(m, 9)), rest, i);
    }
}

/// The parser's state as held by the executable code.
struct Parser {
    done: Vec<Worktree>,
    current: Option<Worktree>,
}

impl View for Parser {
    type V = ParseState;

    closed spec fn view(&self) -> ParseState {
        ParseState {
            done: models(self.done@),
            current: match self.current {
                Some(w) => Some(w@),
                None => None,
            },
        }
    }
}

/// The trimmed range `lo..hi` of `chars` as a string.
fn trimmed_string(s: &str, chars: &Vec<char>, lo: usize, hi: usize) -> (r: String)
    requires
        chars@ == s@,
        lo <= hi <= chars@.len(),
    ensures
        r@ == trim(chars@.subrange(lo as int, hi as int)),
{
    let (a, b) = trimmed_bounds(chars, lo, hi);
    string_of(s, chars, a, b)
}

proof fn lemma_skip_subrange(s: Seq<char>, lo: int, hi: int, n: int)
    requires
        0 <= lo <= hi <= s.len(),
        0 <= n <= hi - lo,
    ensures
        s.subrange(lo, hi).skip(n) == s.subrange(lo + n, hi),
{
    assert(s.subrange(lo, hi).skip(n) =~= s.subrange(lo + n, hi));
}

impl Parser {
    /// Sets the fields of `w` that the line `lo..hi` of `chars` names.
    fn set_field(w: &mut Worktree, s: &str, chars: &Vec<char>, lo: usize, hi: usize)
        requires
            chars@ == s@,
            lo <= hi <= chars@.len(),
        ensures
            final(w)@ == apply_field(old(w)@, chars@.subrange(lo as int, hi as int)),
    {
        let ghost line = chars@.subrange(lo as int, hi as int);
        let (a, b) = trimmed_bounds(chars, lo, hi);
        if has_prefix_at(chars, lo, hi, "HEAD ") {
            proof {
                reveal_strlit("HEAD ");
                lemma_skip_subrange(chars@, lo as int, hi as int, 5);
            }
            w.head = Some(trimmed_string(s, chars, lo + 5, hi));
        } else if has_prefix_at(chars, lo, hi, "branch ") {
            proof {
                reveal_strlit("branch ");
                lemma_skip_subrange(chars@, lo as int, hi as int, 7);
            }
            w.branch = Some(trimmed_string(s, chars, lo + 7, hi));
        } else if equals_at(chars, a, b, "detached") {
            w.detached = true;
        } else if equals_at(chars, a, b, "locked") {
            w.locked = true;
        } else if has_prefix_at(chars, lo, hi, "prunable ") {
            proof {
                reveal_strlit("prunable ");
                lemma_skip_subrange(chars@, lo as int, hi as int, 9);
            }
            w.prunable = Some(trimmed_string(s, chars, lo + 9, hi));
        }
    }

    /// Reads the line `lo..hi` of `chars`.
    fn feed_line(&mut self, s: &str, chars: &Vec<char>, lo: usize, hi: usize)
        requires
            chars@ == s@,
            lo <= hi <= chars@.len(),
        ensures
            final(self)@ == step(old(self)@, chars@.subrange(lo as int, hi as int)),
    {
        if has_prefix_at(chars, lo, hi, "worktree ") {
            proof {
                reveal_strlit("worktree ");
                lemma_skip_subrange(chars@, lo as int, hi as int, 9);
            }
            let path = trimmed_string(s, chars, lo + 9, hi);
            match self.current.take() {
                Some(w) => {
                    self.done.push(w);
                    assert(models(self.done@) =~= models(old(self).done@).push(w@));
                },
                None => {},
            }
            self.current = Some(Worktree::new(path));
        } else {
            match self.current.take() {
                Some(w) => {
                    let mut w = w;
                    Self::set_field(&mut w, s, chars, lo, hi);
                    self.current = Some(w);
                },
                None => {},
            }
        }
    }

    /// The records read so far, the one being built last.
    fn finish(self) -> (r: Vec<Worktree>)
        ensures
            models(r@) == flush(self@),
    {
        let mut done = self.done;
        match self.current {
            Some(w) => {
                done.push(w);
                assert(models(done@) =~= models(self.done@).push(w@));
            },
            None => {},
        }
        done
    }
}

/// Parses the porcelain worktree listing `output` into its records, in
/// listing order. Text that holds no `worktree ` line gives no record.
pub fn parse_worktrees(output: &str) -> (r: Vec<Worktree>)
    ensures
        models(r@) == parse_listing(output@),
{
    let chars = chars_of(output);
    let n = chars.len();
    let mut parser = Parser { done: Vec::new(), current: None };
    let mut start: usize = 0;
    let mut i: usize = 0;
    let ghost mut lines: Seq<Seq<char>> = Seq::empty();
    assert(models(parser.done@) =~= Seq::empty());
    assert(chars@.subrange(0, 0) =~= Seq::<char>::empty());
    while i < n
        invariant
            chars@ == output@,
            n == chars@.len(),
            start <= i <= n,
            split_lines(chars@.subrange(0, i as int)) == lines.push(
                chars@.subrange(start as int, i as int),
            ),
            parser@ == state_after(lines),
        decreases n - i,
    {
        let ghost prefix = chars@.subrange(0, i as int + 1);
        assert(prefix.drop_last() =~= chars@.subrange(0, i as int));
        if chars[i] == '\n' {
            parser.feed_line(output, &chars, start, i);
            proof {
                let l = chars@.subrange(start as int, i as int);
                assert(lines.push(l).drop_last() =~= lines);
                assert(chars@.subrange(i as int + 1, i as int + 1) =~= Seq::<char>::empty());
                lines = lines.push(l);
            }
            start = i + 1;
        } else {
            proof {
                let ls = lines.push(chars@.subrange(start as int, i as int));
                assert(chars@.subrange(start as int, i as int).push(chars@[i as int])
                    =~= chars@.subrange(start as int, i as int + 1));
                assert(ls.update(ls.len() - 1, ls.last().push(chars@[i as int])) =~= lines.push(
                    chars@.subrange(start as int, i as int + 1),
                ));
            }
        }
        i = i + 1;
    }
    parser.feed_line(output, &chars, start, n);
    proof {
        let l = chars@.subrange(start as int, n as int);
        assert(chars@.subrange(0, n as int) =~= output@);
        assert(lines.push(l).drop_last() =~= lines);
    }
    parser.finish()
}

} // verus!
