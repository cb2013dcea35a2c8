//! Platform selection: pick one binary asset from a package's per-platform
//! map using host identifiers ordered most-specific-first.
//!
//! The selection is a priority-ordered lookup only: the first host
//! identifier present as a key wins, with no version or constraint solving.

use crate::errors::WenError;
use crate::manifest::{BinaryAsset, Package, PlatformEntry};
use crate::strutil::str_eq;
use vstd::prelude::*;

verus! {

/// The index of the first platform entry whose identifier equals `id`.
pub open spec fn entry_index_for(entries: Seq<PlatformEntry>, id: Seq<char>) -> Option<int>
    decreases entries.len(),
{
    if entries.len() == 0 {
        None
    } else if entries[0].id@ == id {
        Some(0int)
    } else {
        match entry_index_for(entries.drop_first(), id) {
            Some(j) => Some(j + 1),
            None => None,
        }
    }
}

/// The first host identifier, in priority order, present in the entries:
/// the pair of its index and the index of the entry it selects.
pub open spec fn chosen_platform(ids: Seq<String>, entries: Seq<PlatformEntry>) -> Option<
    (int, int),
>
    decreases ids.len(),
{
    if ids.len() == 0 {
        None
    } else {
        match entry_index_for(entries, ids[0]@) {
            Some(j) => Some((0int, j)),
            None => match chosen_platform(ids.drop_first(), entries) {
                Some(p) => Some((p.0 + 1, p.1)),
                None => None,
            },
        }
    }
}

proof fn lemma_entry_index_at(entries: Seq<PlatformEntry>, j: int, id: Seq<char>)
    requires
        0 <= j < entries.len(),
        entries[j].id@ == id,
        forall|k: int| 0 <= k < j ==> entries[k].id@ != id,
    ensures
        entry_index_for(entries, id) == Some(j),
    decreases j,
{
    if j > 0 {
        lemma_entry_index_at(entries.drop_first(), j - 1, id);
    }
}

proof fn lemma_entry_index_absent(entries: Seq<PlatformEntry>, id: Seq<char>)
    requires
        forall|k: int| 0 <= k < entries.len() ==> entries[k].id@ != id,
    ensures
        entry_index_for(entries, id) is None,
    decreases entries.len(),
{
    if entries.len() > 0 {
        lemma_entry_index_absent(entries.drop_first(), id);
    }
}

/// Law: when `ids[i]` is the first host identifier present in the platform
/// map, the selection picks exactly it, and the entry it keys.
pub proof fn lemma_chosen_at(ids: Seq<String>, entries: Seq<PlatformEntry>, i: int, j: int)
    requires
        0 <= i < ids.len(),
        entry_index_for(entries, ids[i]@) == Some(j),
        forall|k: int| 0 <= k < i ==> entry_index_for(entries, ids[k]@) is None,
    ensures
        chosen_platform(ids, entries) == Some((i, j)),
    decreases i,
{
    if i > 0 {
        lemma_chosen_at(ids.drop_first(), entries, i - 1, j);
    }
}

/// Law: when no host identifier is present in the platform map, nothing is
/// selected, and `select_platform` fails with `UnsupportedPlatform`.
pub proof fn lemma_chosen_absent(ids: Seq<String>, entries: Seq<PlatformEntry>)
    requires
        forall|k: int| 0 <= k < ids.len() ==> entry_index_for(entries, ids[k]@) is None,
    ensures
        chosen_platform(ids, entries) is None,
    decreases ids.len(),
{
    if ids.len() > 0 {
        lemma_chosen_absent(ids.drop_first(), entries);
    }
}

/// The first entry carrying `id`, with everything before it known to carry
/// other identifiers.
fn find_entry(entries: &Vec<PlatformEntry>, id: &str) -> (r: Option<usize>)
    ensures
        match r {
            Some(j) => entry_index_for(entries@, id@) == Some(j as int) && j < entries@.len(),
            None => entry_index_for(entries@, id@) is None,
        },
{
    let n: usize = entries.len();
    let mut j: usize = 0;
    while j < n
        invariant
            n == entries@.len(),
            j <= n,
            forall|k: int| 0 <= k < j ==> entries@[k].id@ != id@,
        decreases n - j,
    {
        if str_eq(entries[j].id.as_str(), id) {
            proof {
                lemma_entry_index_at(entries@, j as int, id@);
            }
            return Some(j);
        }
        j += 1;
    }
    proof {
        lemma_entry_index_absent(entries@, id@);
    }
    None
}

/// Select the binary for the first supported host identifier, or fail with
/// `UnsupportedPlatform` when none of them is a key of the platform map.
pub fn select_platform(platform_ids: &Vec<String>, pkg: &Package) -> (r: Result<
    (String, BinaryAsset),
    WenError,
>)
    ensures
        chosen_platform(platform_ids@, pkg.platforms@) matches Some(sel) ==> (r matches Ok(c)
            && c.0@ == platform_ids@[sel.0]@ && c.1@ == pkg.platforms@[sel.1].asset@),
        chosen_platform(platform_ids@, pkg.platforms@) is None ==> r == Err::<
            (String, BinaryAsset),
            WenError,
        >(WenError::UnsupportedPlatform),
{
    let n: usize = platform_ids.len();
    let mut i: usize = 0;
    while i < n
        invariant
            n == platform_ids@.len(),
            i <= n,
            forall|k: int|
                0 <= k < i ==> entry_index_for(pkg.platforms@, platform_ids@[k]@) is None,
        decreases n - i,
    {
        match find_entry(&pkg.platforms, platform_ids[i].as_str()) {
            Some(j) => {
                proof {
                    lemma_chosen_at(platform_ids@, pkg.platforms@, i as int, j as int);
                }
                return Ok((platform_ids[i].clone(), pkg.platforms[j].asset.clone()));
            },
            None => {},
        }
        i += 1;
    }
    proof {
        lemma_chosen_absent(platform_ids@, pkg.platforms@);
    }
    Err(WenError::UnsupportedPlatform)
}

/// Does any host identifier select a binary of this package?
pub fn supports_platform(platform_ids: &Vec<String>, pkg: &Package) -> (r: bool)
    ensures
        r == (chosen_platform(platform_ids@, pkg.platforms@) is Some),
{
    let n: usize = platform_ids.len();
    let mut i: usize = 0;
    while i < n
        invariant
            n == platform_ids@.len(),
            i <= n,
            forall|k: int|
                0 <= k < i ==> entry_index_for(pkg.platforms@, platform_ids@[k]@) is None,
        decreases n - i,
    {
        match find_entry(&pkg.platforms, platform_ids[i].as_str()) {
            Some(j) => {
                proof {
                    lemma_chosen_at(platform_ids@, pkg.platforms@, i as int, j as int);
                }
                return true;
            },
            None => {},
        }
        i += 1;
    }
    proof {
        lemma_chosen_absent(platform_ids@, pkg.platforms@);
    }
    false
}

} // verus!
