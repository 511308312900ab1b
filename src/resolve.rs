//! The target resolver: picks the one worktree that a user-supplied target
//! names, by normalized path, then by directory name, then by branch.

use vstd::prelude::*;
use crate::paths::{file_name_of, is_path_like, is_path_like_str, path_file_name};
use crate::text::{chars_of, has_prefix_at};
use crate::display::{join_strings, joined};
use crate::worktree::{opt_view, Worktree, WorktreeModel};

verus! {

/// A branch reference with its `refs/heads/` namespace removed.
pub open spec fn short_branch(b: Seq<char>) -> Seq<char> {
    if "refs/heads/"@.is_prefix_of(b) {
        b.skip(11)
    } else {
        b
    }
}

/// The short branch name of a record, if it is on a branch.
pub open spec fn branch_short(w: WorktreeModel) -> Option<Seq<char>> {
    match w.branch {
        Some(b) => Some(short_branch(b)),
        None => None,
    }
}

/// The characters of an optional string slice.
pub open spec fn str_opt_view(o: Option<&str>) -> Option<Seq<char>> {
    match o {
        Some(s) => Some(s@),
        None => None,
    }
}

/// The characters of each string of `v`.
pub open spec fn views(v: Seq<String>) -> Seq<Seq<char>> {
    v.map_values(|s: String| s@)
}

/// The characters of each optional string of `v`.
pub open spec fn opt_views(v: Seq<Option<String>>) -> Seq<Option<Seq<char>>> {
    v.map_values(|o: Option<String>| opt_view(o))
}

/// The records among the first `n` of `ws` whose key in `keys` is `key`,
/// in order.
pub open spec fn keyed_hits(
    key: Seq<char>,
    ws: Seq<Worktree>,
    keys: Seq<Option<Seq<char>>>,
    n: int,
) -> Seq<Worktree>
    decreases n,
{
    if n <= 0 {
        Seq::empty()
    } else {
        let r = keyed_hits(key, ws, keys, n - 1);
        if keys[n - 1] == Some(key) {
            r.push(ws[n - 1])
        } else {
            r
        }
    }
}

/// The records of `ws` whose key in `keys` is `key`, in order.
pub open spec fn keyed(key: Seq<char>, ws: Seq<Worktree>, keys: Seq<Option<Seq<char>>>) -> Seq<
    Worktree,
> {
    keyed_hits(key, ws, keys, ws.len() as int)
}

/// Path stage: the records whose normalized path is the normalized target,
/// when the target is path-like; none otherwise.
pub open spec fn path_stage(
    target: Seq<char>,
    ws: Seq<Worktree>,
    target_norm: Seq<char>,
    path_norms: Seq<Seq<char>>,
) -> Seq<Worktree> {
    if is_path_like(target) {
        keyed(target_norm, ws, path_norms.map_values(|p: Seq<char>| Some(p)))
    } else {
        Seq::empty()
    }
}

/// The final path component of each record.
pub open spec fn base_names(ws: Seq<Worktree>) -> Seq<Option<Seq<char>>> {
    ws.map_values(|w: Worktree| file_name_of(w.path@))
}

/// The short branch name of each record.
pub open spec fn branch_keys(ws: Seq<Worktree>) -> Seq<Option<Seq<char>>> {
    ws.map_values(|w: Worktree| branch_short(w@))
}

/// Basename stage, over the given final component `target_name` of the
/// target and final components `names` of the records' paths: the records
/// whose component is the target's; none when the target has no final
/// component.
pub open spec fn basename_stage(
    target_name: Option<Seq<char>>,
    ws: Seq<Worktree>,
    names: Seq<Option<Seq<char>>>,
) -> Seq<Worktree> {
    match target_name {
        Some(b) => keyed(b, ws, names),
        None => Seq::empty(),
    }
}

/// Branch stage: the records whose short branch name is the target.
pub open spec fn branch_stage(target: Seq<char>, ws: Seq<Worktree>) -> Seq<Worktree> {
    keyed(target, ws, branch_keys(ws))
}

/// The candidates of the first stage that yields any, over the given final
/// component of the target and final components of the records' paths.
pub open spec fn staged_candidates(
    target: Seq<char>,
    ws: Seq<Worktree>,
    target_norm: Seq<char>,
    path_norms: Seq<Seq<char>>,
    target_name: Option<Seq<char>>,
    names: Seq<Option<Seq<char>>>,
) -> Seq<Worktree> {
    let p = path_stage(target, ws, target_norm, path_norms);
    if p.len() > 0 {
        p
    } else {
        let b = basename_stage(target_name, ws, names);
        if b.len() > 0 {
            b
        } else {
            branch_stage(target, ws)
        }
    }
}

/// The candidates of the first stage that yields any.
pub open spec fn candidates(
    target: Seq<char>,
    ws: Seq<Worktree>,
    target_norm: Seq<char>,
    path_norms: Seq<Seq<char>>,
) -> Seq<Worktree> {
    staged_candidates(target, ws, target_norm, path_norms, file_name_of(target), base_names(ws))
}

/// Why a target names no single worktree.
pub enum ResolveError {
    /// No record matches the target at any stage.
    NotFound { target: String },
    /// Several records match the target at the first stage that matches any;
    /// `candidates` holds their paths, in listing order.
    Ambiguous { target: String, candidates: Vec<String> },
}

impl ResolveError {
    /// A one-line description of the error, naming the target and, when it
    /// is ambiguous, every candidate's path.
    pub fn message(&self) -> (r: String)
        ensures
            match self {
                ResolveError::NotFound { target } => r@ == "no worktree matches '"@ + target@
                    + "'"@,
                ResolveError::Ambiguous { target, candidates } => r@ == "'"@ + target@
                    + "' is ambiguous: "@ + joined(views(candidates@), ", "@),
            },
    {
        match self {
            ResolveError::NotFound { target } => {
                let mut m = String::from_str("no worktree matches '");
                m.append(target.as_str());
                m.append("'");
                m
            },
            ResolveError::Ambiguous { target, candidates } => {
                let mut m = String::from_str("'");
                m.append(target.as_str());
                m.append("' is ambiguous: ");
                let list = join_strings(candidates, ", ");
                m.append(list.as_str());
                m
            },
        }
    }
}

/// `r` is what resolving `target` gives when `c` are the candidates: the one
/// candidate, `NotFound` when there is none, `Ambiguous` with every
/// candidate's path when there are several.
pub open spec fn resolution(
    target: Seq<char>,
    c: Seq<Worktree>,
    r: Result<&Worktree, ResolveError>,
) -> bool {
    match r {
        Ok(w) => c.len() == 1 && *w == c[0],
        Err(ResolveError::NotFound { target: t }) => c.len() == 0 && t@ == target,
        Err(ResolveError::Ambiguous { target: t, candidates: ps }) => {
            &&& c.len() > 1
            &&& t@ == target
            &&& views(ps@) == c.map_values(|w: Worktree| w.path@)
        },
    }
}

proof fn lemma_keyed_none(key: Seq<char>, ws: Seq<Worktree>, keys: Seq<Option<Seq<char>>>, n: int)
    requires
        n <= keys.len(),
        forall|j: int| 0 <= j < n ==> keys[j] != Some(key),
    ensures
        keyed_hits(key, ws, keys, n) == Seq::<Worktree>::empty(),
    decreases n,
{
    if n > 0 {
        lemma_keyed_none(key, ws, keys, n - 1);
    }
}

proof fn lemma_keyed_one(
    key: Seq<char>,
    ws: Seq<Worktree>,
    keys: Seq<Option<Seq<char>>>,
    n: int,
    k: int,
)
    requires
        n <= keys.len(),
        forall|j: int| 0 <= j < n ==> (keys[j] == Some(key) <==> j == k),
    ensures
        keyed_hits(key, ws, keys, n) == (if n > k && k >= 0 {
            seq![ws[k]]
        } else {
            Seq::<Worktree>::empty()
        }),
    decreases n,
{
    if n > 0 {
        lemma_keyed_one(key, ws, keys, n - 1, k);
        if n - 1 == k {
            assert(Seq::<Worktree>::empty().push(ws[k]) =~= seq![ws[k]]);
        }
    }
}

proof fn lemma_keyed_two(
    key: Seq<char>,
    ws: Seq<Worktree>,
    keys: Seq<Option<Seq<char>>>,
    n: int,
    a: int,
    b: int,
)
    requires
        0 <= a < b < n <= keys.len(),
        forall|j: int| 0 <= j < n ==> (keys[j] == Some(key) <==> (j == a || j == b)),
    ensures
        keyed_hits(key, ws, keys, n) == seq![ws[a], ws[b]],
    decreases n,
{
    if n - 1 == b {
        lemma_keyed_one(key, ws, keys, n - 1, a);
        assert(seq![ws[a]].push(ws[b]) =~= seq![ws[a], ws[b]]);
    } else {
        lemma_keyed_two(key, ws, keys, n - 1, a, b);
    }
}

/// A path-like target whose normalized form is the normalized path of
/// exactly one record resolves to that record, whatever the other records'
/// directory names and branches are.
pub proof fn lemma_unique_path_match(
    target: Seq<char>,
    ws: Seq<Worktree>,
    target_norm: Seq<char>,
    path_norms: Seq<Seq<char>>,
    k: int,
    r: Result<&Worktree, ResolveError>,
)
    requires
        path_norms.len() == ws.len(),
        is_path_like(target),
        0 <= k < ws.len(),
        forall|j: int| 0 <= j < ws.len() ==> (path_norms[j] == target_norm <==> j == k),
        resolution(target, candidates(target, ws, target_norm, path_norms), r),
    ensures
        r matches Ok(w) && *w == ws[k],
{
    let keys = path_norms.map_values(|p: Seq<char>| Some(p));
    lemma_keyed_one(target_norm, ws, keys, ws.len() as int, k);
}

/// A target that is no path of a record, whose final component is no
/// record's directory name, and that is the short branch name of exactly the records `a` and `b` is ambiguous, and the
/// error lists the paths of both, in listing order.
pub proof fn lemma_shared_branch_ambiguous(
    target: Seq<char>,
    ws: Seq<Worktree>,
    target_norm: Seq<char>,
    path_norms: Seq<Seq<char>>,
    a: int,
    b: int,
    r: Result<&Worktree, ResolveError>,
)
    requires
        path_norms.len() == ws.len(),
        0 <= a < b < ws.len(),
        !is_path_like(target) || forall|j: int| 0 <= j < ws.len() ==> path_norms[j] != target_norm,
        file_name_of(target) is None || forall|j: int|
            0 <= j < ws.len() ==> file_name_of(#[trigger] ws[j].path@) != file_name_of(target),
        forall|j: int|
            0 <= j < ws.len() ==> (branch_short(#[trigger] ws[j]@) == Some(target) <==> (j == a || j
                == b)),
        resolution(target, candidates(target, ws, target_norm, path_norms), r),
    ensures
        r matches Err(ResolveError::Ambiguous { target: t, candidates: ps }) && t@ == target
            && views(ps@) == seq![ws[a].path@, ws[b].path@],
{
    let n = ws.len() as int;
    if is_path_like(target) {
        lemma_keyed_none(target_norm, ws, path_norms.map_values(|p: Seq<char>| Some(p)), n);
    }
    if let Some(b) = file_name_of(target) {
        lemma_keyed_none(b, ws, base_names(ws), n);
    }
    lemma_keyed_two(target, ws, branch_keys(ws), n, a, b);
    assert(seq![ws[a], ws[b]].map_values(|w: Worktree| w.path@) =~= seq![ws[a].path@, ws[b].path@]);
}

/// A target that matches no record's path, whose final component is no
/// record's directory name, and that is no record's branch is not found.
pub proof fn lemma_no_match_not_found(
    target: Seq<char>,
    ws: Seq<Worktree>,
    target_norm: Seq<char>,
    path_norms: Seq<Seq<char>>,
    r: Result<&Worktree, ResolveError>,
)
    requires
        path_norms.len() == ws.len(),
        !is_path_like(target) || forall|j: int| 0 <= j < ws.len() ==> path_norms[j] != target_norm,
        file_name_of(target) is None || forall|j: int|
            0 <= j < ws.len() ==> file_name_of(#[trigger] ws[j].path@) != file_name_of(target),
        forall|j: int| 0 <= j < ws.len() ==> branch_short(#[trigger] ws[j]@) != Some(target),
        resolution(target, candidates(target, ws, target_norm, path_norms), r),
    ensures
        r matches Err(ResolveError::NotFound { target: t }) && t@ == target,
{
    let n = ws.len() as int;
    if is_path_like(target) {
        lemma_keyed_none(target_norm, ws, path_norms.map_values(|p: Seq<char>| Some(p)), n);
    }
    if let Some(b) = file_name_of(target) {
        lemma_keyed_none(b, ws, base_names(ws), n);
    }
    lemma_keyed_none(target, ws, branch_keys(ws), n);
}

/// Whether two strings hold the same characters.
fn str_eq(a: &str, b: &str) -> (r: bool)
    ensures
        r == (a@ == b@),
{
    String::from_str(a) == String::from_str(b)
}

/// The short branch name of `wt`: its branch without the `refs/heads/`
/// namespace, or `None` when it has no branch.
pub fn worktree_branch_short(wt: &Worktree) -> (r: Option<&str>)
    ensures
        str_opt_view(r) == branch_short(wt@),
{
    match &wt.branch {
        None => None,
        Some(b) => {
            let s = b.as_str();
            let chars = chars_of(s);
            let n = chars.len();
            proof {
                assert(chars@.subrange(0, n as int) =~= chars@);
                reveal_strlit("refs/heads/");
            }
            if has_prefix_at(&chars, 0, n, "refs/heads/") {
                Some(s.substring_char(11, n))
            } else {
                Some(s)
            }
        },
    }
}

/// The records of `worktrees` whose key in `keys` is `key`, in order.
pub fn select_by_key<'a>(key: &str, worktrees: &'a Vec<Worktree>, keys: &Vec<Option<String>>) -> (r:
    Vec<&'a Worktree>)
    requires
        keys@.len() == worktrees@.len(),
    ensures
        r@.unref() == keyed(key@, worktrees@, opt_views(keys@)),
{
    let ghost ks = opt_views(keys@);
    let mut out: Vec<&'a Worktree> = Vec::new();
    let mut i: usize = 0;
    assert(out@.unref() =~= Seq::<Worktree>::empty());
    while i < worktrees.len()
        invariant
            keys@.len() == worktrees@.len(),
            ks == opt_views(keys@),
            i <= worktrees@.len(),
            out@.unref() == keyed_hits(key@, worktrees@, ks, i as int),
        decreases worktrees@.len() - i,
    {
        let hit = match &keys[i] {
            Some(k) => str_eq(k.as_str(), key),
            None => false,
        };
        if hit {
            let ghost before = out@;
            out.push(&worktrees[i]);
            assert(out@.unref() =~= before.unref().push(worktrees@[i as int]));
        }
        i = i + 1;
    }
    out
}

/// The records whose normalized path is `target_norm`, when `target` is an
/// absolute path or holds a separator; none otherwise. `target_norm` is the
/// normalized form of `target` resolved against the working directory, and
/// `path_norms` the normalized path of each record.
pub fn match_by_path<'a>(
    target: &str,
    worktrees: &'a Vec<Worktree>,
    target_norm: &str,
    path_norms: &Vec<String>,
) -> (r: Vec<&'a Worktree>)
    requires
        path_norms@.len() == worktrees@.len(),
    ensures
        r@.unref() == path_stage(target@, worktrees@, target_norm@, views(path_norms@)),
{
    if !is_path_like_str(target) {
        let out: Vec<&'a Worktree> = Vec::new();
        assert(out@.unref() =~= Seq::<Worktree>::empty());
        return out;
    }
    let mut keys: Vec<Option<String>> = Vec::new();
    let mut i: usize = 0;
    while i < path_norms.len()
        invariant
            i <= path_norms@.len(),
            keys@.len() == i,
            forall|j: int|
                0 <= j < i ==> #[trigger] opt_view(keys@[j]) == Some(path_norms@[j]@),
        decreases path_norms@.len() - i,
    {
        keys.push(Some(path_norms[i].clone()));
        i = i + 1;
    }
    let r = select_by_key(target_norm, worktrees, &keys);
    assert(opt_views(keys@) =~= views(path_norms@).map_values(|p: Seq<char>| Some(p)));
    r
}

/// The records whose path ends in the component `target_name`, among
/// records whose final components are `names`; none when `target_name` is
/// `None`.
pub fn match_by_names<'a>(
    target_name: &Option<String>,
    worktrees: &'a Vec<Worktree>,
    names: &Vec<Option<String>>,
) -> (r: Vec<&'a Worktree>)
    requires
        names@.len() == worktrees@.len(),
    ensures
        r@.unref() == basename_stage(opt_view(*target_name), worktrees@, opt_views(names@)),
{
    match target_name {
        Some(b) => select_by_key(b.as_str(), worktrees, names),
        None => {
            let out: Vec<&'a Worktree> = Vec::new();
            assert(out@.unref() =~= Seq::<Worktree>::empty());
            out
        },
    }
}

/// The final path component of each record.
fn record_names(worktrees: &Vec<Worktree>) -> (r: Vec<Option<String>>)
    ensures
        r@.len() == worktrees@.len(),
        opt_views(r@) == base_names(worktrees@),
{
    let mut names: Vec<Option<String>> = Vec::new();
    let mut i: usize = 0;
    while i < worktrees.len()
        invariant
            i <= worktrees@.len(),
            names@.len() == i,
            forall|j: int|
                0 <= j < i ==> #[trigger] opt_view(names@[j]) == file_name_of(
                    worktrees@[j].path@,
                ),
        decreases worktrees@.len() - i,
    {
        names.push(path_file_name(worktrees[i].path.as_str()));
        i = i + 1;
    }
    assert(opt_views(names@) =~= base_names(worktrees@));
    names
}

/// The records whose path ends in the final component of `target`, taken
/// as a bare name without normalization.
pub fn match_by_basename<'a>(target: &str, worktrees: &'a Vec<Worktree>) -> (r: Vec<&'a Worktree>)
    ensures
        r@.unref() == basename_stage(file_name_of(target@), worktrees@, base_names(worktrees@)),
{
    let target_name = path_file_name(target);
    let names = record_names(worktrees);
    match_by_names(&target_name, worktrees, &names)
}

/// The records whose short branch name is `target`. Records without a
/// branch never match.
pub fn match_by_branch<'a>(target: &str, worktrees: &'a Vec<Worktree>) -> (r: Vec<&'a Worktree>)
    ensures
        r@.unref() == branch_stage(target@, worktrees@),
{
    let mut keys: Vec<Option<String>> = Vec::new();
    let mut i: usize = 0;
    while i < worktrees.len()
        invariant
            i <= worktrees@.len(),
            keys@.len() == i,
            forall|j: int|
                0 <= j < i ==> #[trigger] opt_view(keys@[j]) == branch_short(worktrees@[j]@),
        decreases worktrees@.len() - i,
    {
        let k = match worktree_branch_short(&worktrees[i]) {
            Some(b) => Some(String::from_str(b)),
            None => None,
        };
        keys.push(k);
        i = i + 1;
    }
    assert(opt_views(keys@) =~= branch_keys(worktrees@));
    select_by_key(target, worktrees, &keys)
}

/// Turns the candidates of the deciding stage into the one record, or the
/// error that says why there is not exactly one.
fn pick<'a>(target: &str, matches: Vec<&'a Worktree>) -> (r: Result<&'a Worktree, ResolveError>)
    ensures
        resolution(target@, matches@.unref(), r),
{
    let n = matches.len();
    if n == 0 {
        return Err(ResolveError::NotFound { target: String::from_str(target) });
    }
    if n == 1 {
        return Ok(matches[0]);
    }
    let mut paths: Vec<String> = Vec::new();
    let mut i: usize = 0;
    while i < n
        invariant
            n == matches@.len(),
            i <= n,
            views(paths@) == matches@.unref().take(i as int).map_values(|w: Worktree| w.path@),
        decreases n - i,
    {
        let ghost before = paths@;
        paths.push(matches[i].path.clone());
        assert(views(paths@) =~= views(before).push(matches@[i as int].path@));
        assert(matches@.unref().take(i + 1) =~= matches@.unref().take(i as int).push(
            *matches@[i as int],
        ));
        assert(views(paths@) =~= matches@.unref().take(i + 1).map_values(
            |w: Worktree| w.path@,
        ));
        i = i + 1;
    }
    assert(matches@.unref().take(n as int) =~= matches@.unref());
    Err(ResolveError::Ambiguous { target: String::from_str(target), candidates: paths })
}

/// Resolves `target` among `worktrees`, given the final component
/// `target_name` of the target and that of each record's path in `names`:
/// the path stage, then the basename stage, then the branch stage; the first
/// that yields any candidate decides.
pub fn resolve_with_names<'a>(
    target: &str,
    worktrees: &'a Vec<Worktree>,
    target_norm: &str,
    path_norms: &Vec<String>,
    target_name: &Option<String>,
    names: &Vec<Option<String>>,
) -> (r: Result<&'a Worktree, ResolveError>)
    requires
        path_norms@.len() == worktrees@.len(),
        names@.len() == worktrees@.len(),
    ensures
        resolution(
            target@,
            staged_candidates(
                target@,
                worktrees@,
                target_norm@,
                views(path_norms@),
                opt_view(*target_name),
                opt_views(names@),
            ),
            r,
        ),
{
    let mut matches = match_by_path(target, worktrees, target_norm, path_norms);
    if matches.len() == 0 {
        matches = match_by_names(target_name, worktrees, names);
    }
    if matches.len() == 0 {
        matches = match_by_branch(target, worktrees);
    }
    pick(target, matches)
}

/// Resolves `target` among `worktrees`: by normalized path (`target_norm`
/// against `path_norms`), then by the final component of the target against
/// that of each record's path, then by short branch name. The first stage that yields any candidate decides:
/// one candidate is the result, several are `Ambiguous`, and none at any
/// stage is `NotFound`.
pub fn resolve_worktree<'a>(
    target: &str,
    worktrees: &'a Vec<Worktree>,
    target_norm: &str,
    path_norms: &Vec<String>,
) -> (r: Result<&'a Worktree, ResolveError>)
    requires
        path_norms@.len() == worktrees@.len(),
    ensures
        resolution(target@, candidates(target@, worktrees@, target_norm@, views(path_norms@)), r),
{
    let target_name = path_file_name(target);
    let names = record_names(worktrees);
    resolve_with_names(target, worktrees, target_norm, path_norms, &target_name, &names)
}

/// Resolves `target` by short branch name alone; several records on the
/// same branch are `Ambiguous`.
pub fn resolve_branch<'a>(target: &str, worktrees: &'a Vec<Worktree>) -> (r: Result<
    &'a Worktree,
    ResolveError,
>)
    ensures
        resolution(target@, branch_stage(target@, worktrees@), r),
{
    let matches = match_by_branch(target, worktrees);
    pick(target, matches)
}

} // verus!
