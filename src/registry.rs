//! Allocation of default worktree paths under the per-user registry
//! directory: `<home>/.terris-worktrees/<repo>/<branch>-<suffix>`, where the
//! suffix is eight random lowercase letters.

use vstd::prelude::*;
use crate::paths::join_path;
use rand::Rng;

verus! {

/// The number of letters in a random path suffix.
pub const SUFFIX_LEN: usize = 8;

#[verifier::external_type_specification]
#[verifier::external_body]
pub struct ExThreadRng(rand::rngs::ThreadRng);

/// Relies on `rand::thread_rng`: the thread's generator, seeded by the system.
#[verifier::external_body]
fn new_rng() -> rand::rngs::ThreadRng {
    rand::thread_rng()
}

/// Whether `c` is a lowercase ASCII letter.
pub open spec fn is_lower_letter(c: char) -> bool {
    'a' as u32 <= c as u32 && c as u32 <= 'z' as u32
}

/// Relies on `rand::Rng::gen_range` over the inclusive range `b'a'..=b'z'`:
/// the value drawn lies in the range, which is not empty.
#[verifier::external_body]
fn random_letter(rng: &mut rand::rngs::ThreadRng) -> (r: String)
    ensures
        r@.len() == 1,
        is_lower_letter(r@[0]),
{
    (rng.gen_range(b'a'..=b'z') as char).to_string()
}

/// Whether `s` has the shape of a path suffix: `n` lowercase letters.
pub open spec fn is_suffix(s: Seq<char>, n: nat) -> bool {
    s.len() == n && forall|i: int| 0 <= i < s.len() ==> is_lower_letter(#[trigger] s[i])
}

/// A string of `len` lowercase letters, each drawn at random.
pub fn random_suffix(len: usize) -> (r: String)
    ensures
        is_suffix(r@, len as nat),
{
    let mut rng = new_rng();
    let mut out = String::new();
    let mut i: usize = 0;
    while i < len
        invariant
            i <= len,
            is_suffix(out@, i as nat),
        decreases len - i,
    {
        let c = random_letter(&mut rng);
        let ghost before = out@;
        out.append(c.as_str());
        assert(out@ =~= before + c@);
        assert(forall|j: int| 0 <= j < i ==> out@[j] == before[j]);
        assert(out@[i as int] == c@[0]);
        i = i + 1;
    }
    out
}

/// The registry directory under the home directory `home`.
pub open spec fn registry_dir(home: Seq<char>) -> Seq<char> {
    join_path(home, ".terris-worktrees"@)
}

/// The path of a worktree of `repo` on `branch` with the suffix `suffix`.
pub open spec fn worktree_path(
    home: Seq<char>,
    repo: Seq<char>,
    branch: Seq<char>,
    suffix: Seq<char>,
) -> Seq<char> {
    join_path(join_path(registry_dir(home), repo), branch + "-"@ + suffix)
}

/// A required setting is missing.
pub enum ConfigError {
    /// The home directory is not known.
    HomeNotSet,
}

impl ConfigError {
    /// A one-line description of the error.
    pub fn message(&self) -> (r: String)
        ensures
            r@ == "HOME is not set"@,
    {
        String::from_str("HOME is not set")
    }
}

/// The registry directory under `home`, or `HomeNotSet` when the home
/// directory is not known.
pub fn registry_base_dir(home: Option<&str>) -> (r: Result<String, ConfigError>)
    ensures
        match home {
            Some(h) => r matches Ok(p) && p@ == registry_dir(h@),
            None => r matches Err(ConfigError::HomeNotSet),
        },
{
    match home {
        Some(h) => Ok(crate::paths::resolve_path(h, ".terris-worktrees")),
        None => Err(ConfigError::HomeNotSet),
    }
}

/// The path of a worktree of `repo_name` on `branch` under the registry
/// directory of `home`, with the given `suffix`.
pub fn worktree_path_with_suffix(home: &str, repo_name: &str, branch: &str, suffix: &str) -> (r:
    String)
    ensures
        r@ == worktree_path(home@, repo_name@, branch@, suffix@),
{
    let base = crate::paths::resolve_path(home, ".terris-worktrees");
    let dir = crate::paths::resolve_path(base.as_str(), repo_name);
    let mut leaf = String::from_str(branch);
    leaf.append("-");
    leaf.append(suffix);
    crate::paths::resolve_path(dir.as_str(), leaf.as_str())
}

/// A fresh default path for a worktree of `repo_name` on `branch`:
/// `<home>/.terris-worktrees/<repo_name>/<branch>-<suffix>` with a suffix of
/// eight random lowercase letters, or `HomeNotSet` when the home directory is
/// not known.
pub fn default_worktree_path(home: Option<&str>, repo_name: &str, branch: &str) -> (r: Result<
    String,
    ConfigError,
>)
    ensures
        match home {
            Some(h) => r matches Ok(p) && exists|s: Seq<char>|
                is_suffix(s, SUFFIX_LEN as nat) && p@ == worktree_path(
                    h@,
                    repo_name@,
                    branch@,
                    s,
                ),
            None => r matches Err(ConfigError::HomeNotSet),
        },
{
    match home {
        Some(h) => {
            let suffix = random_suffix(SUFFIX_LEN);
            let p = worktree_path_with_suffix(h, repo_name, branch, suffix.as_str());
            Ok(p)
        },
        None => Err(ConfigError::HomeNotSet),
    }
}

} // verus!
