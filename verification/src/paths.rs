//! File-system paths as text, and the two questions the locators put to the
//! machine: where is the home directory, and does a path exist.

use vstd::prelude::*;

verus! {

/// What `Path::join` gives for `base` joined with `seg`, as text. It follows
/// the path rules of the target the crate is built for (separator, absolute
/// segments replacing the base).
pub uninterp spec fn path_join(base: Seq<char>, seg: Seq<char>) -> Seq<char>;

/// `Path::new(base).join(seg)`, read back as text with `to_string_lossy`.
#[verifier::external_body]
pub(crate) fn join_path(base: &str, seg: &str) -> (r: String)
    ensures
        r@ == path_join(base@, seg@),
{
    std::path::Path::new(base).join(seg).to_string_lossy().into_owned()
}

/// What `Path::parent` gives for `p`, as text: `None` when `p` ends in a
/// root or prefix or is empty.
pub uninterp spec fn path_parent(p: Seq<char>) -> Option<Seq<char>>;

/// `Path::new(p).parent()`, read back as text with `to_string_lossy`.
#[verifier::external_body]
pub(crate) fn parent_path(p: &str) -> (r: Option<String>)
    ensures
        r.deep_view() == path_parent(p@),
{
    match std::path::Path::new(p).parent() {
        Some(d) => Some(d.to_string_lossy().into_owned()),
        None => None,
    }
}

/// `Path::exists`: whether something is at `p` right now. The answer comes
/// from the disk at the moment of the call; nothing is promised about it.
#[verifier::external_body]
pub(crate) fn path_exists(p: &str) -> bool {
    std::path::Path::new(p).exists()
}

/// `dirs::home_dir`, read back as text. It comes from the environment
/// (`$HOME`, the password database, or the Windows profile folder); nothing
/// is promised about it.
#[verifier::external_body]
pub(crate) fn dirs_home_dir() -> Option<String> {
    match dirs::home_dir() {
        Some(p) => Some(p.to_string_lossy().into_owned()),
        None => None,
    }
}

/// The home directory, or the empty path when there is none
/// (`dirs::home_dir().unwrap_or_default()`).
pub fn home_or_empty() -> (r: String)
{
    match dirs_home_dir() {
        Some(h) => h,
        None => String::new(),
    }
}

/// Index of the first `true` in `present`.
pub open spec fn first_true(present: Seq<bool>) -> Option<int>
    decreases present.len(),
{
    if present.len() == 0 {
        None
    } else if present[0] {
        Some(0)
    } else {
        match first_true(present.drop_first()) {
            Some(k) => Some(k + 1),
            None => None,
        }
    }
}

pub proof fn lemma_first_true(present: Seq<bool>, i: int)
    requires
        0 <= i <= present.len(),
        forall|k: int| 0 <= k < i ==> !present[k],
    ensures
        i < present.len() && present[i] ==> first_true(present) == Some(i),
        i == present.len() ==> first_true(present) is None,
    decreases i,
{
    if i > 0 {
        assert forall|k: int| 0 <= k < i - 1 implies !present.drop_first()[k] by {
            assert(present.drop_first()[k] == present[k + 1]);
        }
        lemma_first_true(present.drop_first(), i - 1);
    }
}

/// What `first_true` means: the index of a `true` with only `false` before
/// it, or no `true` at all.
pub proof fn lemma_first_true_props(present: Seq<bool>)
    ensures
        first_true(present) matches Some(i) ==> 0 <= i < present.len() && present[i] && forall|k: int|
            0 <= k < i ==> !present[k],
        first_true(present) is None ==> forall|k: int| 0 <= k < present.len() ==> !present[k],
    decreases present.len(),
{
    if present.len() > 0 && !present[0] {
        lemma_first_true_props(present.drop_first());
        assert forall|k: int| 0 < k < present.len() implies present[k] == present.drop_first()[k - 1] by {}
    }
}

/// The first of `cands` whose existence answer in `present` holds.
pub open spec fn pick_first(cands: Seq<Seq<char>>, present: Seq<bool>) -> Option<Seq<char>> {
    match first_true(present) {
        Some(i) if i < cands.len() => Some(cands[i]),
        _ => None,
    }
}

/// With one answer per candidate, something is picked exactly when some
/// candidate was found.
pub proof fn lemma_pick_first_some(cands: Seq<Seq<char>>, present: Seq<bool>)
    requires
        present.len() == cands.len(),
    ensures
        pick_first(cands, present) is Some <==> exists|i: int| 0 <= i < present.len() && present[i],
{
    lemma_first_true_props(present);
    if exists|i: int| 0 <= i < present.len() && present[i] {
        let i = choose|i: int| 0 <= i < present.len() && present[i];
        assert(present[i]);
    }
}

/// `r` reports the first index of `present` that holds, as `first_true`.
pub open spec fn reports_first(r: Option<usize>, present: Seq<bool>) -> bool {
    match r {
        Some(i) => first_true(present) == Some(i as int),
        None => first_true(present) is None,
    }
}

/// The index of the first answer that holds.
pub fn first_present(found: &Vec<bool>) -> (r: Option<usize>)
    ensures
        reports_first(r, found@),
{
    let n = found.len();
    let mut i: usize = 0;
    while i < n
        invariant
            i <= n == found@.len(),
            forall|k: int| 0 <= k < i ==> !found@[k],
        decreases n - i,
    {
        if found[i] {
            proof {
                lemma_first_true(found@, i as int);
            }
            return Some(i);
        }
        i = i + 1;
    }
    proof {
        lemma_first_true(found@, n as int);
    }
    None
}

/// Checks the paths in order until one exists, and hands back the index of
/// that path together with the answers the disk gave, one per path. Paths
/// after the first existing one are not checked; their answers read `false`.
/// The index is the first `true` among the answers.
pub fn first_existing(paths: &Vec<String>) -> (r: (Option<usize>, Vec<bool>))
    ensures
        r.1@.len() == paths@.len(),
        reports_first(r.0, r.1@),
        r.0 matches Some(i) ==> i < paths@.len(),
{
    let n = paths.len();
    let mut found: Vec<bool> = Vec::new();
    let mut hit: Option<usize> = None;
    let mut i: usize = 0;
    while i < n
        invariant
            i <= n == paths@.len(),
            found@.len() == i,
            hit is None ==> forall|k: int| 0 <= k < i ==> !found@[k],
            hit matches Some(h) ==> h < i && found@[h as int] && forall|k: int|
                0 <= k < i && k != h ==> !found@[k],
        decreases n - i,
    {
        let answer = if hit.is_none() {
            path_exists(paths[i].as_str())
        } else {
            false
        };
        if answer {
            hit = Some(i);
        }
        found.push(answer);
        i = i + 1;
    }
    proof {
        match hit {
            Some(h) => lemma_first_true(found@, h as int),
            None => lemma_first_true(found@, n as int),
        }
    }
    (hit, found)
}

} // verus!
