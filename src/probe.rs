use vstd::prelude::*;
use crate::catalog::{AppCheck, AppView, path_opt, paths_of, views};

verus! {

/// `i` is the first index, below `n`, at which a probe found its path.
pub open spec fn is_first_found(found: Seq<bool>, n: int, i: int) -> bool {
    0 <= i < n && i < found.len() && found[i] && forall|j: int| 0 <= j < i ==> !found[j]
}

/// The first candidate whose probe found it, if any.
pub open spec fn first_existing_spec(c: Seq<Seq<char>>, found: Seq<bool>) -> Option<Seq<char>> {
    if exists|i: int| is_first_found(found, c.len() as int, i) {
        Some(c[choose|i: int| is_first_found(found, c.len() as int, i)])
    } else {
        None
    }
}

/// `found` is what probing `c` in order gives: one result per path probed,
/// stopping at the first path that exists.
pub open spec fn is_probe_of(c: Seq<Seq<char>>, found: Seq<bool>) -> bool {
    &&& found.len() <= c.len()
    &&& forall|j: int| 0 <= j < found.len() - 1 ==> !found[j]
    &&& found.len() == c.len() || (found.len() > 0 && found.last())
}

/// Every probe result agrees with the set of paths that exist.
pub open spec fn agrees_with(c: Seq<Seq<char>>, found: Seq<bool>, fs: Set<Seq<char>>) -> bool {
    found.len() <= c.len() && forall|j: int| 0 <= j < found.len() ==> found[j] == fs.contains(c[j])
}

/// The path at which an application is found when `fs` is the set of paths that exist.
pub open spec fn resolve_in(c: Seq<Seq<char>>, fs: Set<Seq<char>>) -> Option<Seq<char>> {
    first_existing_spec(c, Seq::new(c.len(), |i: int| fs.contains(c[i])))
}

/// A record after probing, given the probe results for its candidates.
pub open spec fn resolved(a: AppView, found: Seq<bool>) -> AppView {
    AppView { installed: first_existing_spec(a.candidates, found), ..a }
}

/// Each record of `apps` probed with the matching entry of `found`.
pub open spec fn resolve_all(apps: Seq<AppView>, found: Seq<Seq<bool>>) -> Seq<AppView> {
    Seq::new(apps.len(), |k: int| resolved(apps[k], found[k]))
}

/// `found` holds one probe of each record's candidates.
pub open spec fn probes_of(apps: Seq<AppView>, found: Seq<Seq<bool>>) -> bool {
    found.len() == apps.len() && forall|k: int|
        0 <= k < apps.len() ==> is_probe_of(apps[k].candidates, #[trigger] found[k])
}

proof fn lemma_first_found_unique(found: Seq<bool>, n: int, i: int, k: int)
    requires
        is_first_found(found, n, i),
        is_first_found(found, n, k),
    ensures
        i == k,
{
    if i < k {
        assert(!found[i]);
    } else if k < i {
        assert(!found[k]);
    }
}

proof fn lemma_some_first_found(found: Seq<bool>, n: int, i: int)
    requires
        0 <= i < n,
        i < found.len(),
        found[i],
    ensures
        exists|k: int| is_first_found(found, n, k),
    decreases i,
{
    if exists|j: int| 0 <= j < i && found[j] {
        let j = choose|j: int| 0 <= j < i && found[j];
        lemma_some_first_found(found, n, j);
    } else {
        assert(is_first_found(found, n, i));
    }
}

/// A resolved path is a candidate whose probe found it, and no earlier probe
/// found its path; with no resolved path, no probe found anything.
pub proof fn lemma_first_existing(c: Seq<Seq<char>>, found: Seq<bool>)
    ensures
        match first_existing_spec(c, found) {
            Some(p) => exists|i: int|
                is_first_found(found, c.len() as int, i) && c[i] == p && #[trigger] c.contains(p),
            None => forall|i: int| 0 <= i < c.len() && i < found.len() ==> !found[i],
        },
{
    if exists|i: int| is_first_found(found, c.len() as int, i) {
        let i = choose|i: int| is_first_found(found, c.len() as int, i);
        assert(c.contains(c[i]));
    } else {
        assert forall|i: int| 0 <= i < c.len() && i < found.len() implies !found[i] by {
            if found[i] {
                lemma_some_first_found(found, c.len() as int, i);
            }
        }
    }
}

/// A probe whose results agree with the set of paths that exist resolves to
/// the first candidate in that set: the first that existed at probe time.
pub proof fn lemma_probe_matches_filesystem(c: Seq<Seq<char>>, found: Seq<bool>, fs: Set<Seq<char>>)
    requires
        is_probe_of(c, found),
        agrees_with(c, found, fs),
    ensures
        first_existing_spec(c, found) == resolve_in(c, fs),
        match resolve_in(c, fs) {
            Some(p) => exists|i: int|
                0 <= i < c.len() && c[i] == p && fs.contains(c[i]) && forall|j: int|
                    0 <= j < i ==> !fs.contains(#[trigger] c[j]),
            None => forall|i: int| 0 <= i < c.len() ==> !fs.contains(#[trigger] c[i]),
        },
{
    let n = c.len() as int;
    let full = Seq::new(c.len(), |i: int| fs.contains(c[i]));
    if found.len() == c.len() {
        assert(found =~= full);
    } else {
        let m = found.len() - 1;
        assert forall|j: int| 0 <= j < m implies !full[j] by {
            assert(!found[j]);
        }
        assert(is_first_found(found, n, m));
        assert(is_first_found(full, n, m));
        let a = choose|i: int| is_first_found(found, n, i);
        let b = choose|i: int| is_first_found(full, n, i);
        lemma_first_found_unique(found, n, m, a);
        lemma_first_found_unique(full, n, m, b);
    }
    lemma_first_existing(c, full);
    match resolve_in(c, fs) {
        Some(p) => {
            let i = choose|i: int| is_first_found(full, n, i) && c[i] == p && #[trigger] c.contains(p);
            assert forall|j: int| 0 <= j < i implies !fs.contains(#[trigger] c[j]) by {
                assert(!full[j]);
            }
        },
        None => {
            assert forall|i: int| 0 <= i < c.len() implies !fs.contains(#[trigger] c[i]) by {
                assert(!full[i]);
            }
        },
    }
}

/// Relies on std::path::Path::exists: whether something is at the path, file or
/// directory, with any error reading its metadata taken as "no". What it returns
/// depends on the filesystem, so nothing is promised of it.
#[verifier::external_body]
fn path_exists(path: &str) -> (r: bool) {
    std::path::Path::new(path).exists()
}

/// Probes the candidates in order and stops at the first that exists.
pub fn probe_candidates(candidates: &Vec<String>) -> (found: Vec<bool>)
    ensures
        is_probe_of(paths_of(candidates@), found@),
{
    let mut found: Vec<bool> = Vec::new();
    let mut i: usize = 0;
    while i < candidates.len()
        invariant
            i <= candidates@.len(),
            found@.len() == i,
            forall|j: int| 0 <= j < i ==> !found@[j],
        decreases candidates@.len() - i,
    {
        let hit = path_exists(candidates[i].as_str());
        found.push(hit);
        if hit {
            return found;
        }
        i = i + 1;
    }
    found
}

/// The first candidate whose probe result is `true`, if any.
pub fn first_existing(candidates: &Vec<String>, found: &Vec<bool>) -> (r: Option<String>)
    ensures
        path_opt(r) == first_existing_spec(paths_of(candidates@), found@),
{
    let ghost c = paths_of(candidates@);
    let mut i: usize = 0;
    while i < candidates.len() && i < found.len()
        invariant
            c == paths_of(candidates@),
            i <= candidates@.len(),
            forall|j: int| 0 <= j < i && j < found@.len() ==> !found@[j],
        decreases candidates@.len() - i,
    {
        if found[i] {
            proof {
                assert(is_first_found(found@, c.len() as int, i as int));
                let k = choose|k: int| is_first_found(found@, c.len() as int, k);
                lemma_first_found_unique(found@, c.len() as int, i as int, k);
            }
            return Some(candidates[i].clone());
        }
        i = i + 1;
    }
    proof {
        if exists|k: int| is_first_found(found@, c.len() as int, k) {
            let k = choose|k: int| is_first_found(found@, c.len() as int, k);
            assert(!found@[k]);
        }
    }
    None
}

/// Records, for each application, the first candidate path that exists.
pub fn detect_installed_apps(apps: &mut Vec<AppCheck>)
    ensures
        exists|found: Seq<Seq<bool>>|
            probes_of(views(old(apps)@), found) && views(final(apps)@) == resolve_all(
                views(old(apps)@),
                found,
            ),
{
    let ghost before = views(apps@);
    let ghost mut all_found: Seq<Seq<bool>> = Seq::empty();
    let n = apps.len();
    let mut k: usize = 0;
    while k < n
        invariant
            n == apps@.len(),
            before == views(old(apps)@),
            before.len() == n,
            k <= n,
            all_found.len() == k,
            forall|j: int| 0 <= j < k ==> is_probe_of(before[j].candidates, #[trigger] all_found[j]),
            forall|j: int| 0 <= j < k ==> apps@[j]@ == resolved(before[j], #[trigger] all_found[j]),
            forall|j: int| k <= j < n ==> #[trigger] apps@[j]@ == before[j],
        decreases n - k,
    {
        let ghost prev = apps@;
        assert(prev[k as int]@ == before[k as int]);
        let found = probe_candidates(&apps[k].candidates);
        let r = first_existing(&apps[k].candidates, &found);
        apps[k].installed_path = r;
        proof {
            all_found = all_found.push(found@);
            assert(all_found[k as int] == found@);
            assert(apps@[k as int]@ == resolved(before[k as int], found@));
            assert forall|j: int| 0 <= j < k + 1 implies is_probe_of(
                before[j].candidates,
                #[trigger] all_found[j],
            ) by {
                if j < k {
                    assert(all_found[j] == all_found.drop_last()[j]);
                }
            }
            assert forall|j: int| 0 <= j < k + 1 implies apps@[j]@ == resolved(
                before[j],
                #[trigger] all_found[j],
            ) by {
                if j < k {
                    assert(all_found[j] == all_found.drop_last()[j]);
                    assert(apps@[j] == prev[j]);
                }
            }
        }
        k = k + 1;
    }
    assert(probes_of(before, all_found));
    assert(views(apps@) =~= resolve_all(before, all_found));
}

} // verus!
