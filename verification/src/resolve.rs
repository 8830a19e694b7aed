//! Where the asset bundle is looked for, and which of the places wins.
//!
//! The bundle is a directory with an entry file in it. It is looked for
//! first among the packaged resources, then in a directory of a fixed name
//! next to the running application or next to one of the directories above
//! it, and last in such a directory below the working directory.

use vstd::prelude::*;
use crate::paths::{push_name, push_segment};
use crate::text::{chars_of, option_string_text, option_text, string_of};

verus! {

/// How many directories are tried on the way up from the application:
/// its own and those above it.
pub const MAX_HOPS: usize = 10;

/// The name of the directory that holds the bundle.
pub open spec fn bundle_dir_name() -> Seq<char> {
    "breach_it"@
}

/// The text of each string of `v`.
pub open spec fn texts(v: Seq<String>) -> Seq<Seq<char>> {
    Seq::new(v.len(), |i: int| v[i]@)
}

/// The bundle directory below each of `dirs`.
pub open spec fn bundle_dirs_below(dirs: Seq<Seq<char>>) -> Seq<Seq<char>> {
    Seq::new(dirs.len(), |i: int| push_segment(dirs[i], bundle_dir_name()))
}

/// As many of the first elements of `dirs` as may be tried.
pub open spec fn within_hops(dirs: Seq<Seq<char>>) -> Seq<Seq<char>> {
    if dirs.len() <= MAX_HOPS {
        dirs
    } else {
        dirs.take(MAX_HOPS as int)
    }
}

/// One element where there is a value, none where there is not.
pub open spec fn optional<A>(value: Option<A>) -> Seq<A> {
    match value {
        Some(v) => seq![v],
        None => seq![],
    }
}

/// The places where the bundle is looked for, in the order in which they
/// are tried: the packaged resource as it is; the bundle directory below
/// the application's directory and below the directories above it, nearest
/// first and no more than `MAX_HOPS` of them; the bundle directory below
/// the working directory.
pub open spec fn candidate_dirs(
    resource: Option<Seq<char>>,
    ancestors: Seq<Seq<char>>,
    working_dir: Option<Seq<char>>,
) -> Seq<Seq<char>> {
    optional(resource) + bundle_dirs_below(within_hops(ancestors)) + bundle_dirs_below(
        optional(working_dir),
    )
}

fn bundle_dir_below(dir: &str) -> (path: String)
    ensures
        path@ == push_segment(dir@, bundle_dir_name()),
{
    let mut out = chars_of(dir);
    let name = chars_of("breach_it");
    push_name(&mut out, name.as_slice());
    string_of(out.as_slice())
}

/// Lists the places where the bundle is looked for, in order. `ancestors`
/// holds the application's directory and the directories above it, nearest
/// first.
pub fn asset_root_candidates(
    resource: Option<&str>,
    ancestors: &[String],
    working_dir: Option<&str>,
) -> (candidates: Vec<String>)
    ensures
        texts(candidates@) == candidate_dirs(
            option_text(resource),
            texts(ancestors@),
            option_text(working_dir),
        ),
{
    let mut candidates: Vec<String> = Vec::new();
    match resource {
        Some(dir) => {
            candidates.push(dir.to_owned());
        },
        None => {},
    }
    let hops: usize = if ancestors.len() <= MAX_HOPS {
        ancestors.len()
    } else {
        MAX_HOPS
    };
    let ghost head = optional(option_text(resource));
    let ghost tried = within_hops(texts(ancestors@));
    assert(texts(candidates@) =~= head);
    let mut i: usize = 0;
    while i < hops
        invariant
            i <= hops <= ancestors.len(),
            tried == within_hops(texts(ancestors@)),
            tried.len() == hops,
            texts(candidates@) == head + bundle_dirs_below(tried.take(i as int)),
        decreases hops - i,
    {
        let ghost before = texts(candidates@);
        candidates.push(bundle_dir_below(ancestors[i].as_str()));
        proof {
            let dir = push_segment(tried[i as int], bundle_dir_name());
            assert(tried[i as int] == ancestors@[i as int]@);
            assert(texts(candidates@) =~= before.push(dir));
            assert(bundle_dirs_below(tried.take(i + 1)) =~= bundle_dirs_below(
                tried.take(i as int),
            ).push(dir));
            assert(texts(candidates@) =~= head + bundle_dirs_below(tried.take(i + 1)));
        }
        i += 1;
    }
    assert(tried.take(i as int) == tried);
    match working_dir {
        Some(dir) => {
            candidates.push(bundle_dir_below(dir));
        },
        None => {},
    }
    assert(texts(candidates@) =~= candidate_dirs(
        option_text(resource),
        texts(ancestors@),
        option_text(working_dir),
    ));
    candidates
}

/// How many of the first elements of `found` are false.
pub open spec fn misses(found: Seq<bool>) -> nat
    decreases found.len(),
{
    if found.len() > 0 && !found[0] {
        1 + misses(found.skip(1))
    } else {
        0
    }
}

/// The first of `candidates` whose entry file was found, where `found`
/// says of each candidate whether it was; `None` if no candidate has one.
pub open spec fn selected_root(candidates: Seq<Seq<char>>, found: Seq<bool>) -> Option<Seq<char>> {
    if misses(found) < found.len() && misses(found) < candidates.len() {
        Some(candidates[misses(found) as int])
    } else {
        None
    }
}

/// A run of misses that is followed by a hit, or by nothing, is counted in
/// full.
pub proof fn lemma_misses_is(found: Seq<bool>, n: int)
    requires
        0 <= n <= found.len(),
        forall|j: int| 0 <= j < n ==> !found[j],
        n < found.len() ==> found[n],
    ensures
        misses(found) == n,
    decreases n,
{
    if n > 0 {
        lemma_misses_is(found.skip(1), n - 1);
    }
}

/// Picks the directory to serve: the first candidate whose entry file was
/// found.
pub fn select_asset_root(candidates: &[String], found: &[bool]) -> (root: Option<String>)
    ensures
        option_string_text(root) == selected_root(texts(candidates@), found@),
{
    let mut i: usize = 0;
    while i < found.len() && !found[i]
        invariant
            i <= found.len(),
            forall|j: int| 0 <= j < i ==> !found@[j],
        decreases found.len() - i,
    {
        i += 1;
    }
    proof {
        lemma_misses_is(found@, i as int);
    }
    if i < found.len() && i < candidates.len() {
        Some(candidates[i].clone())
    } else {
        None
    }
}

/// A candidate whose entry file was found while none before it had one is
/// the directory that is picked.
pub proof fn lemma_first_hit_is_selected(candidates: Seq<Seq<char>>, found: Seq<bool>, i: int)
    requires
        0 <= i < candidates.len(),
        i < found.len(),
        found[i],
        forall|j: int| 0 <= j < i ==> !found[j],
    ensures
        selected_root(candidates, found) == Some(candidates[i]),
{
    lemma_misses_is(found, i);
}

/// Where no candidate has an entry file, nothing is picked.
pub proof fn lemma_no_hit_selects_nothing(candidates: Seq<Seq<char>>, found: Seq<bool>)
    requires
        forall|j: int| 0 <= j < found.len() ==> !found[j],
    ensures
        selected_root(candidates, found) is None,
{
    lemma_misses_is(found, found.len() as int);
}

} // verus!
