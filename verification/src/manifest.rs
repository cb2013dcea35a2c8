//! The data model: packages, their provenance, and the installed-state
//! record, together with the in-memory installed manifest.
//!
//! Every type carries a mathematical view over character sequences, so that
//! contracts can speak about contents independently of allocation. The
//! installed manifest is an association list keyed by package name, with
//! uniqueness of names as its invariant; lookups follow first-match order.

use vstd::prelude::*;

verus! {

/// One downloadable binary: its URL and size in bytes.
#[derive(Debug)]
pub struct BinaryAsset {
    pub url: String,
    pub size: u64,
}

#[verifier::ext_equal]
pub ghost struct AssetView {
    pub url: Seq<char>,
    pub size: u64,
}

impl View for BinaryAsset {
    type V = AssetView;

    open spec fn view(&self) -> AssetView {
        AssetView { url: self.url@, size: self.size }
    }
}

impl Clone for BinaryAsset {
    fn clone(&self) -> (r: Self)
        ensures
            r == *self,
    {
        BinaryAsset { url: self.url.clone(), size: self.size }
    }
}

/// A platform identifier paired with the binary published for it. A
/// package's platform map is a list of such entries with unique identifiers.
#[derive(Debug)]
pub struct PlatformEntry {
    pub id: String,
    pub asset: BinaryAsset,
}

#[verifier::ext_equal]
pub ghost struct PlatformEntryView {
    pub id: Seq<char>,
    pub asset: AssetView,
}

impl View for PlatformEntry {
    type V = PlatformEntryView;

    open spec fn view(&self) -> PlatformEntryView {
        PlatformEntryView { id: self.id@, asset: self.asset@ }
    }
}

impl Clone for PlatformEntry {
    fn clone(&self) -> (r: Self)
        ensures
            r == *self,
    {
        PlatformEntry { id: self.id.clone(), asset: self.asset.clone() }
    }
}

/// Where a resolved package came from: a named bucket of the cache, or a
/// repository URL given directly. Provenance decides how the package is
/// re-resolved on a later update.
#[derive(Debug)]
pub enum PackageSource {
    Bucket { name: String },
    DirectRepo { url: String },
}

pub ghost enum SourceView {
    Bucket { name: Seq<char> },
    DirectRepo { url: Seq<char> },
}

impl View for PackageSource {
    type V = SourceView;

    open spec fn view(&self) -> SourceView {
        match self {
            PackageSource::Bucket { name } => SourceView::Bucket { name: name@ },
            PackageSource::DirectRepo { url } => SourceView::DirectRepo { url: url@ },
        }
    }
}

impl Clone for PackageSource {
    fn clone(&self) -> (r: Self)
        ensures
            r == *self,
    {
        match self {
            PackageSource::Bucket { name } => PackageSource::Bucket { name: name.clone() },
            PackageSource::DirectRepo { url } => PackageSource::DirectRepo { url: url.clone() },
        }
    }
}

/// Descriptive record of a package: name, repository, description, optional
/// homepage and license, and the per-platform binaries.
#[derive(Debug)]
pub struct Package {
    pub name: String,
    pub repo: String,
    pub description: String,
    pub homepage: Option<String>,
    pub license: Option<String>,
    pub platforms: Vec<PlatformEntry>,
}

#[verifier::ext_equal]
pub ghost struct PackageView {
    pub name: Seq<char>,
    pub repo: Seq<char>,
    pub description: Seq<char>,
    pub homepage: Option<Seq<char>>,
    pub license: Option<Seq<char>>,
    pub platforms: Seq<PlatformEntryView>,
}

impl View for Package {
    type V = PackageView;

    open spec fn view(&self) -> PackageView {
        PackageView {
            name: self.name@,
            repo: self.repo@,
            description: self.description@,
            homepage: match self.homepage {
                Some(h) => Some(h@),
                None => None,
            },
            license: match self.license {
                Some(l) => Some(l@),
                None => None,
            },
            platforms: self.platforms@.map_values(|e: PlatformEntry| e@),
        }
    }
}

impl Clone for Package {
    fn clone(&self) -> (r: Self)
        ensures
            r@ == self@,
    {
        let r = Package {
            name: self.name.clone(),
            repo: self.repo.clone(),
            description: self.description.clone(),
            homepage: match &self.homepage {
                Some(h) => Some(h.clone()),
                None => None,
            },
            license: match &self.license {
                Some(l) => Some(l.clone()),
                None => None,
            },
            platforms: self.platforms.clone(),
        };
        proof {
            assert(r@.platforms =~= self@.platforms);
            assert(r@ =~= self@);
        }
        r
    }
}

/// One cache entry: the package and the bucket it came from.
#[derive(Debug)]
pub struct CachedPackage {
    pub package: Package,
    pub source: PackageSource,
}

/// The cache index folded from all buckets, in iteration order. Keys are
/// source URLs, so the same package name may appear more than once.
#[derive(Debug)]
pub struct ManifestCache {
    pub packages: Vec<CachedPackage>,
}

/// Persisted record of one installed package. Created only on full pipeline
/// success.
#[derive(Debug)]
pub struct InstalledPackage {
    pub version: String,
    pub platform: String,
    pub installed_at: i64,
    pub install_path: String,
    pub files: Vec<String>,
    pub source: PackageSource,
    pub description: String,
}

#[verifier::ext_equal]
pub ghost struct InstalledPackageView {
    pub version: Seq<char>,
    pub platform: Seq<char>,
    pub installed_at: i64,
    pub install_path: Seq<char>,
    pub files: Seq<Seq<char>>,
    pub source: SourceView,
    pub description: Seq<char>,
}

impl View for InstalledPackage {
    type V = InstalledPackageView;

    open spec fn view(&self) -> InstalledPackageView {
        InstalledPackageView {
            version: self.version@,
            platform: self.platform@,
            installed_at: self.installed_at,
            install_path: self.install_path@,
            files: self.files@.map_values(|s: String| s@),
            source: self.source@,
            description: self.description@,
        }
    }
}

impl Clone for InstalledPackage {
    fn clone(&self) -> (r: Self)
        ensures
            r@ == self@,
    {
        let r = InstalledPackage {
            version: self.version.clone(),
            platform: self.platform.clone(),
            installed_at: self.installed_at,
            install_path: self.install_path.clone(),
            files: self.files.clone(),
            source: self.source.clone(),
            description: self.description.clone(),
        };
        proof {
            assert(r@.files =~= self@.files);
            assert(r@ =~= self@);
        }
        r
    }
}

/// One row of the installed manifest: the key and its record.
#[derive(Debug)]
pub struct InstalledEntry {
    pub name: String,
    pub package: InstalledPackage,
}

/// The record a name maps to, by first match over the rows.
pub open spec fn installed_lookup(entries: Seq<InstalledEntry>, name: Seq<char>) -> Option<
    InstalledPackage,
>
    decreases entries.len(),
{
    if entries.len() == 0 {
        None
    } else if entries[0].name@ == name {
        Some(entries[0].package)
    } else {
        installed_lookup(entries.drop_first(), name)
    }
}

/// A name found first at row `i` is what lookup returns.
pub(crate) proof fn lemma_lookup_at_first(entries: Seq<InstalledEntry>, i: int, name: Seq<char>)
    requires
        0 <= i < entries.len(),
        entries[i].name@ == name,
        forall|j: int| 0 <= j < i ==> entries[j].name@ != name,
    ensures
        installed_lookup(entries, name) == Some(entries[i].package),
    decreases i,
{
    if i > 0 {
        lemma_lookup_at_first(entries.drop_first(), i - 1, name);
    }
}

/// A name on no row is not found.
proof fn lemma_lookup_absent(entries: Seq<InstalledEntry>, name: Seq<char>)
    requires
        forall|j: int| 0 <= j < entries.len() ==> entries[j].name@ != name,
    ensures
        installed_lookup(entries, name) is None,
    decreases entries.len(),
{
    if entries.len() > 0 {
        lemma_lookup_absent(entries.drop_first(), name);
    }
}

/// Replacing row `i` by a row of a different name than `other` leaves
/// `other`'s lookup unchanged.
proof fn lemma_lookup_update_other(
    entries: Seq<InstalledEntry>,
    i: int,
    e: InstalledEntry,
    other: Seq<char>,
)
    requires
        0 <= i < entries.len(),
        entries[i].name@ != other,
        e.name@ != other,
    ensures
        installed_lookup(entries.update(i, e), other) == installed_lookup(entries, other),
    decreases entries.len(),
{
    let updated = entries.update(i, e);
    if i == 0 {
        assert(updated.drop_first() =~= entries.drop_first());
    } else {
        assert(updated[0] == entries[0]);
        if entries[0].name@ != other {
            assert(updated.drop_first() =~= entries.drop_first().update(i - 1, e));
            lemma_lookup_update_other(entries.drop_first(), i - 1, e, other);
        }
    }
}

/// Appending a row of a different name than `other` leaves `other`'s lookup
/// unchanged.
proof fn lemma_lookup_push_other(entries: Seq<InstalledEntry>, e: InstalledEntry, other: Seq<char>)
    requires
        e.name@ != other,
    ensures
        installed_lookup(entries.push(e), other) == installed_lookup(entries, other),
    decreases entries.len(),
{
    if entries.len() == 0 {
        assert(entries.push(e)[0] == e);
        assert(entries.push(e).drop_first() =~= Seq::<InstalledEntry>::empty());
        assert(installed_lookup(Seq::<InstalledEntry>::empty(), other) is None);
        assert(installed_lookup(entries.push(e), other) is None);
    } else {
        assert(entries.push(e)[0] == entries[0]);
        assert(entries.push(e).drop_first() =~= entries.drop_first().push(e));
        lemma_lookup_push_other(entries.drop_first(), e, other);
    }
}

/// Appending a row whose name was absent makes lookup find it.
proof fn lemma_lookup_push_new(entries: Seq<InstalledEntry>, e: InstalledEntry)
    requires
        forall|j: int| 0 <= j < entries.len() ==> entries[j].name@ != e.name@,
    ensures
        installed_lookup(entries.push(e), e.name@) == Some(e.package),
    decreases entries.len(),
{
    if entries.len() == 0 {
        assert(entries.push(e)[0] == e);
    } else {
        assert(entries.push(e)[0] == entries[0]);
        assert(entries.push(e).drop_first() =~= entries.drop_first().push(e));
        lemma_lookup_push_new(entries.drop_first(), e);
    }
}

/// The installed-state manifest: one row per installed package, keyed by
/// name. Read once per run, updated in memory after each success, and
/// persisted by the caller.
#[derive(Debug)]
pub struct InstalledManifest {
    pub packages: Vec<InstalledEntry>,
}

impl InstalledManifest {
    /// Names are unique across rows.
    pub open spec fn wf(self) -> bool {
        forall|i: int, j: int|
            0 <= i < j < self.packages@.len() ==> self.packages@[i].name@
                != self.packages@[j].name@
    }

    /// An empty manifest.
    pub fn new() -> (r: Self)
        ensures
            r.packages@.len() == 0,
            r.wf(),
    {
        InstalledManifest { packages: Vec::new() }
    }

    /// Is nothing installed?
    pub fn is_empty(&self) -> (r: bool)
        ensures
            r == (self.packages@.len() == 0),
    {
        self.packages.is_empty()
    }

    /// The first row carrying `name`, with everything before it known to
    /// carry other names.
    fn find_index(&self, name: &str) -> (r: Option<usize>)
        ensures
            match r {
                Some(i) => 0 <= i < self.packages@.len() && self.packages@[i as int].name@
                    == name@ && (forall|j: int|
                    0 <= j < i ==> self.packages@[j].name@ != name@),
                None => forall|j: int|
                    0 <= j < self.packages@.len() ==> self.packages@[j].name@ != name@,
            },
    {
        let n: usize = self.packages.len();
        let mut i: usize = 0;
        while i < n
            invariant
                n == self.packages@.len(),
                i <= n,
                forall|j: int| 0 <= j < i ==> self.packages@[j].name@ != name@,
            decreases n - i,
        {
            if crate::strutil::str_eq(self.packages[i].name.as_str(), name) {
                return Some(i);
            }
            i += 1;
        }
        None
    }

    /// Is a package of this exact name installed?
    pub fn is_installed(&self, name: &str) -> (r: bool)
        ensures
            r == (installed_lookup(self.packages@, name@) is Some),
    {
        match self.find_index(name) {
            Some(i) => {
                proof {
                    lemma_lookup_at_first(self.packages@, i as int, name@);
                }
                true
            },
            None => {
                proof {
                    lemma_lookup_absent(self.packages@, name@);
                }
                false
            },
        }
    }

    /// The installed record of this exact name, if any.
    pub fn get_package(&self, name: &str) -> (r: Option<&InstalledPackage>)
        ensures
            match r {
                Some(p) => installed_lookup(self.packages@, name@) == Some(*p),
                None => installed_lookup(self.packages@, name@) is None,
            },
    {
        match self.find_index(name) {
            Some(i) => {
                proof {
                    lemma_lookup_at_first(self.packages@, i as int, name@);
                }
                Some(&self.packages[i].package)
            },
            None => {
                proof {
                    lemma_lookup_absent(self.packages@, name@);
                }
                None
            },
        }
    }

    /// Insert the record under `name`, replacing any previous record of that
    /// name and touching no other.
    pub fn upsert_package(&mut self, name: String, package: InstalledPackage)
        requires
            old(self).wf(),
        ensures
            final(self).wf(),
            installed_lookup(final(self).packages@, name@) == Some(package),
            forall|other: Seq<char>|
                other != name@ ==> installed_lookup(final(self).packages@, other)
                    == installed_lookup(old(self).packages@, other),
    {
        let ghost old_rows = self.packages@;
        let entry = InstalledEntry { name, package };
        match self.find_index(entry.name.as_str()) {
            Some(i) => {
                self.packages[i] = entry;
                proof {
                    let rows = self.packages@;
                    assert(rows == old_rows.update(i as int, entry));
                    lemma_lookup_at_first(rows, i as int, entry.name@);
                    assert forall|other: Seq<char>| other != entry.name@ implies installed_lookup(
                        rows,
                        other,
                    ) == installed_lookup(old_rows, other) by {
                        lemma_lookup_update_other(old_rows, i as int, entry, other);
                    }
                }
            },
            None => {
                self.packages.push(entry);
                proof {
                    let rows = self.packages@;
                    assert(rows == old_rows.push(entry));
                    lemma_lookup_push_new(old_rows, entry);
                    assert forall|other: Seq<char>| other != entry.name@ implies installed_lookup(
                        rows,
                        other,
                    ) == installed_lookup(old_rows, other) by {
                        lemma_lookup_push_other(old_rows, entry, other);
                    }
                }
            },
        }
    }
}

} // verus!
