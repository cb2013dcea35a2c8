//! Turning a user-supplied identifier into resolved packages.
//!
//! An input is classified as a cache name (possibly a glob) or a direct
//! repository URL. Cache names are looked up in the cache index; a name
//! without a wildcard that misses the cache falls back to a previously
//! installed direct-URL package, which is re-fetched live. Direct URLs are
//! always fetched live and never touch the cache.

use crate::errors::WenError;
use crate::glob::{
    contains_wildcard, glob_match, glob_match_spec, has_wildcard, lemma_exact_without_wildcard,
};
use crate::manifest::{
    installed_lookup, CachedPackage, InstalledEntry, InstalledManifest, InstalledPackage,
    ManifestCache, Package, PackageSource, PackageView, SourceView,
};
use crate::providers::SourceProvider;
use crate::strutil::{str_concat, str_eq, str_starts_with};
use vstd::prelude::*;

verus! {

/// Inputs recognised as direct repository URLs; everything else is a cache
/// name.
pub open spec fn is_direct_url_input(s: Seq<char>) -> bool {
    "http://"@.is_prefix_of(s) || "https://"@.is_prefix_of(s) || "github.com/"@.is_prefix_of(s)
}

/// A bare `github.com/...` form gains the `https://` scheme; any other input
/// passes through unchanged.
pub open spec fn normalized_url(s: Seq<char>) -> Seq<char> {
    if "github.com/"@.is_prefix_of(s) {
        "https://"@ + s
    } else {
        s
    }
}

/// The type of package input, as classified from the raw argument.
#[derive(Debug)]
pub enum PackageInput {
    /// Package name to look up in the cache (may hold `*` wildcards).
    CacheName(String),
    /// Direct repository URL.
    DirectUrl(String),
}

impl PackageInput {
    /// Classify an input string as URL or package name.
    pub fn parse(input: &str) -> (r: Self)
        ensures
            is_direct_url_input(input@) ==> (r matches PackageInput::DirectUrl(u) && u@
                == normalized_url(input@)),
            !is_direct_url_input(input@) ==> (r matches PackageInput::CacheName(n) && n@
                == input@),
    {
        if str_starts_with(input, "http://") || str_starts_with(input, "https://")
            || str_starts_with(input, "github.com/") {
            PackageInput::DirectUrl(normalize_github_url(input))
        } else {
            PackageInput::CacheName(input.to_owned())
        }
    }
}

impl Clone for PackageInput {
    fn clone(&self) -> (r: Self)
        ensures
            r == *self,
    {
        match self {
            PackageInput::CacheName(n) => PackageInput::CacheName(n.clone()),
            PackageInput::DirectUrl(u) => PackageInput::DirectUrl(u.clone()),
        }
    }
}

/// Normalize a repository URL to its standard form.
pub fn normalize_github_url(url: &str) -> (r: String)
    ensures
        r@ == normalized_url(url@),
{
    if str_starts_with(url, "github.com/") {
        str_concat("https://", url)
    } else {
        url.to_owned()
    }
}

/// Result of package resolution with source information.
#[derive(Debug)]
pub struct ResolvedPackage {
    /// The package information.
    pub package: Package,
    /// The source of this package.
    pub source: PackageSource,
}

impl ResolvedPackage {
    /// Pair a package with its source.
    pub fn new(package: Package, source: PackageSource) -> (r: Self)
        ensures
            r.package == package,
            r.source == source,
    {
        ResolvedPackage { package, source }
    }
}

impl Clone for ResolvedPackage {
    fn clone(&self) -> (r: Self)
        ensures
            r.package@ == self.package@,
            r.source == self.source,
    {
        ResolvedPackage { package: self.package.clone(), source: self.source.clone() }
    }
}

/// The package-and-source views of resolved packages.
pub open spec fn resolved_views(s: Seq<ResolvedPackage>) -> Seq<(PackageView, SourceView)> {
    s.map_values(|rp: ResolvedPackage| (rp.package@, rp.source@))
}

/// The package-and-source views of cache entries.
pub open spec fn cached_views(s: Seq<CachedPackage>) -> Seq<(PackageView, SourceView)> {
    s.map_values(|c: CachedPackage| (c.package@, c.source@))
}

/// The cache entries whose package name matches the pattern, in cache order.
/// A pattern without a wildcard matches by exact equality.
pub open spec fn cache_hits(entries: Seq<CachedPackage>, pattern: Seq<char>) -> Seq<CachedPackage>
    decreases entries.len(),
{
    if entries.len() == 0 {
        entries
    } else {
        let rest = cache_hits(entries.drop_last(), pattern);
        if glob_match_spec(entries.last().package.name@, pattern) {
            rest.push(entries.last())
        } else {
            rest
        }
    }
}

proof fn lemma_cache_hits_push(s: Seq<CachedPackage>, c: CachedPackage, pattern: Seq<char>)
    ensures
        cache_hits(s.push(c), pattern) == (if glob_match_spec(c.package.name@, pattern) {
            cache_hits(s, pattern).push(c)
        } else {
            cache_hits(s, pattern)
        }),
{
    assert(s.push(c).drop_last() =~= s);
    assert(s.push(c).last() == c);
}

/// The URL an exact cache miss may fall back to: the stored URL of an
/// installed package of that name whose provenance is a direct repository.
pub open spec fn direct_fallback(installed: Seq<InstalledEntry>, pattern: Seq<char>) -> Option<
    Seq<char>,
> {
    if has_wildcard(pattern) {
        None
    } else {
        match installed_lookup(installed, pattern) {
            Some(p) => match p.source {
                PackageSource::DirectRepo { url } => Some(url@),
                PackageSource::Bucket { .. } => None,
            },
            None => None,
        }
    }
}

/// What resolving a direct URL guarantees: one package, tagged with that
/// URL as a direct repository.
pub open spec fn direct_resolution_post(
    url: Seq<char>,
    r: Result<Vec<ResolvedPackage>, WenError>,
) -> bool {
    r matches Ok(v) ==> v@.len() == 1 && v@[0].source@ == (SourceView::DirectRepo { url })
}

/// What resolving a cache name guarantees: every cache hit, in cache order,
/// tagged with its bucket source; on a miss, the installed direct-repo
/// fallback re-fetched live; failing both, exactly `NotFound`.
pub open spec fn cache_resolution_post(
    cache: Seq<CachedPackage>,
    installed: Seq<InstalledEntry>,
    pattern: Seq<char>,
    r: Result<Vec<ResolvedPackage>, WenError>,
) -> bool {
    let hits = cache_hits(cache, pattern);
    &&& (hits.len() > 0 ==> (r matches Ok(v) && resolved_views(v@) == cached_views(hits)))
    &&& (hits.len() == 0 ==> match direct_fallback(installed, pattern) {
        Some(u) => r matches Ok(v) ==> v@.len() == 1 && v@[0].source@ == (SourceView::DirectRepo {
            url: u,
        }),
        None => r == Err::<Vec<ResolvedPackage>, WenError>(WenError::NotFound),
    })
}

proof fn lemma_cache_hits_empty(entries: Seq<CachedPackage>, pattern: Seq<char>)
    requires
        forall|j: int|
            0 <= j < entries.len() ==> !glob_match_spec(
                (#[trigger] entries[j]).package.name@,
                pattern,
            ),
    ensures
        cache_hits(entries, pattern).len() == 0,
    decreases entries.len(),
{
    if entries.len() > 0 {
        lemma_cache_hits_empty(entries.drop_last(), pattern);
    }
}

proof fn lemma_cache_hits_single(entries: Seq<CachedPackage>, pattern: Seq<char>, i: int)
    requires
        0 <= i < entries.len(),
        glob_match_spec(entries[i].package.name@, pattern),
        forall|j: int|
            0 <= j < entries.len() && j != i ==> !glob_match_spec(
                (#[trigger] entries[j]).package.name@,
                pattern,
            ),
    ensures
        cache_hits(entries, pattern) =~= seq![entries[i]],
    decreases entries.len(),
{
    let pre = entries.drop_last();
    if i == entries.len() - 1 {
        lemma_cache_hits_empty(pre, pattern);
    } else {
        lemma_cache_hits_single(pre, pattern, i);
    }
}

/// Law: a cache name matched by exactly one cache entry resolves to exactly
/// that entry's package, tagged with that entry's own provenance — for an
/// entry of a bucket, its bucket.
pub proof fn lemma_single_hit_resolution(
    cache: Seq<CachedPackage>,
    installed: Seq<InstalledEntry>,
    pattern: Seq<char>,
    i: int,
    r: Result<Vec<ResolvedPackage>, WenError>,
)
    requires
        0 <= i < cache.len(),
        glob_match_spec(cache[i].package.name@, pattern),
        forall|j: int|
            0 <= j < cache.len() && j != i ==> !glob_match_spec(
                (#[trigger] cache[j]).package.name@,
                pattern,
            ),
        cache_resolution_post(cache, installed, pattern, r),
    ensures
        r matches Ok(v) && v@.len() == 1 && v@[0].package@ == cache[i].package@ && v@[0].source@
            == cache[i].source@,
{
    lemma_cache_hits_single(cache, pattern, i);
    let hits = cache_hits(cache, pattern);
    assert(hits =~= seq![cache[i]]);
    let v = r->Ok_0;
    assert(resolved_views(v@).len() == cached_views(hits).len());
    assert(resolved_views(v@)[0] == cached_views(hits)[0]);
}

/// Law: a cache name that no cache entry matches falls back, for exact
/// names, to an installed package of that name with direct-repository
/// provenance, re-resolved from its stored URL; with no such fallback the
/// resolution fails with exactly `NotFound`.
pub proof fn lemma_cache_miss_resolution(
    cache: Seq<CachedPackage>,
    installed: Seq<InstalledEntry>,
    pattern: Seq<char>,
    r: Result<Vec<ResolvedPackage>, WenError>,
)
    requires
        forall|j: int|
            0 <= j < cache.len() ==> !glob_match_spec(
                (#[trigger] cache[j]).package.name@,
                pattern,
            ),
        !has_wildcard(pattern),
        cache_resolution_post(cache, installed, pattern, r),
    ensures
        (match installed_lookup(installed, pattern) {
            Some(p) => match p.source {
                PackageSource::DirectRepo { url } => r matches Ok(v) ==> v@.len() == 1
                    && v@[0].source@ == (SourceView::DirectRepo { url: url@ }),
                PackageSource::Bucket { .. } => r == Err::<Vec<ResolvedPackage>, WenError>(
                    WenError::NotFound,
                ),
            },
            None => r == Err::<Vec<ResolvedPackage>, WenError>(WenError::NotFound),
        }),
{
    lemma_cache_hits_empty(cache, pattern);
}

/// The index of the first cache entry whose package name equals `name`.
pub open spec fn first_cache_index(entries: Seq<CachedPackage>, name: Seq<char>) -> Option<int>
    decreases entries.len(),
{
    if entries.len() == 0 {
        None
    } else if entries[0].package.name@ == name {
        Some(0int)
    } else {
        match first_cache_index(entries.drop_first(), name) {
            Some(j) => Some(j + 1),
            None => None,
        }
    }
}

proof fn lemma_cache_index_at(entries: Seq<CachedPackage>, i: int, name: Seq<char>)
    requires
        0 <= i < entries.len(),
        entries[i].package.name@ == name,
        forall|j: int| 0 <= j < i ==> entries[j].package.name@ != name,
    ensures
        first_cache_index(entries, name) == Some(i),
    decreases i,
{
    if i > 0 {
        lemma_cache_index_at(entries.drop_first(), i - 1, name);
    }
}

proof fn lemma_cache_index_absent(entries: Seq<CachedPackage>, name: Seq<char>)
    requires
        forall|j: int| 0 <= j < entries.len() ==> entries[j].package.name@ != name,
    ensures
        first_cache_index(entries, name) is None,
    decreases entries.len(),
{
    if entries.len() > 0 {
        lemma_cache_index_absent(entries.drop_first(), name);
    }
}

/// One installed package that can be upgraded: its name, the installed
/// version, and the newer version the source reports.
#[derive(Debug)]
pub struct UpgradeCandidate {
    pub name: String,
    pub current: String,
    pub latest: String,
}

/// The repository URL an installed package is refreshed from, when it can
/// be determined: the stored URL for direct provenance, the repository of
/// the first same-named cache entry for bucket provenance.
pub open spec fn repo_for(cache: Seq<CachedPackage>, name: Seq<char>, p: InstalledPackage) -> Option<
    Seq<char>,
> {
    match p.source {
        PackageSource::DirectRepo { url } => Some(url@),
        PackageSource::Bucket { .. } => match first_cache_index(cache, name) {
            Some(i) => Some(cache[i].package.repo@),
            None => None,
        },
    }
}

/// A well-formed upgrade row: it names an installed package whose
/// repository is determinable, carries that package's installed version,
/// and reports a latest version that differs from it.
pub open spec fn upgrade_row_ok(
    cache: Seq<CachedPackage>,
    installed: Seq<InstalledEntry>,
    c: UpgradeCandidate,
) -> bool {
    match installed_lookup(installed, c.name@) {
        Some(p) => p.version@ == c.current@ && c.current@ != c.latest@ && repo_for(
            cache,
            c.name@,
            p,
        ) is Some,
        None => false,
    }
}

/// Turn one installed package and the latest version its source reports
/// into an upgrade row: a package already at that version yields no row,
/// any other yields exactly its name, its installed version and the
/// reported version.
pub fn upgrade_candidate(entry: &InstalledEntry, latest: String) -> (r: Option<UpgradeCandidate>)
    ensures
        entry.package.version@ == latest@ ==> r is None,
        entry.package.version@ != latest@ ==> (r matches Some(c) && c.name@ == entry.name@
            && c.current@ == entry.package.version@ && c.latest@ == latest@),
{
    let decision = crate::batch::plan_action(Some(&entry.package), latest.as_str());
    if decision == crate::batch::InstallDecision::AlreadyCurrent {
        None
    } else {
        Some(
            UpgradeCandidate {
                name: entry.name.clone(),
                current: entry.package.version.clone(),
                latest,
            },
        )
    }
}

/// Package resolver: cache index, installed state and a source provider,
/// each handed in once by the caller.
pub struct PackageResolver<P: SourceProvider> {
    /// The cache index, as read or rebuilt by the cache store.
    pub cache: ManifestCache,
    /// The installed-state manifest, as read from disk.
    pub installed: InstalledManifest,
    /// The live metadata source.
    pub provider: P,
}

impl<P: SourceProvider> PackageResolver<P> {
    /// Create a new package resolver over the given cache and installed
    /// state.
    pub fn new(cache: ManifestCache, installed: InstalledManifest, provider: P) -> (r: Self)
        ensures
            r.cache == cache,
            r.installed == installed,
    {
        PackageResolver { cache, installed, provider }
    }

    /// Resolve package(s) from input.
    ///
    /// Cache names support glob patterns and may yield several matches; a
    /// URL yields a single package.
    pub fn resolve(&self, input: &PackageInput) -> (r: Result<Vec<ResolvedPackage>, WenError>)
        ensures
            input matches PackageInput::CacheName(name) ==> cache_resolution_post(
                self.cache.packages@,
                self.installed.packages@,
                name@,
                r,
            ),
            input matches PackageInput::DirectUrl(url) ==> direct_resolution_post(url@, r),
    {
        match input {
            PackageInput::CacheName(name) => self.resolve_from_cache(name.as_str()),
            PackageInput::DirectUrl(url) => match self.resolve_from_url(url.as_str()) {
                Ok(pkg) => {
                    let mut v: Vec<ResolvedPackage> = Vec::new();
                    v.push(pkg);
                    Ok(v)
                },
                Err(e) => Err(e),
            },
        }
    }

    /// Resolve a package name against the cache, falling back to the
    /// installed state for exact names that miss.
    pub fn resolve_from_cache(&self, name: &str) -> (r: Result<Vec<ResolvedPackage>, WenError>)
        ensures
            cache_resolution_post(self.cache.packages@, self.installed.packages@, name@, r),
    {
        let n: usize = self.cache.packages.len();
        let is_glob = contains_wildcard(name);
        let mut out: Vec<ResolvedPackage> = Vec::new();
        let mut i: usize = 0;
        proof {
            assert(self.cache.packages@.take(0) =~= Seq::<CachedPackage>::empty());
            assert(resolved_views(out@) =~= cached_views(
                cache_hits(self.cache.packages@.take(0), name@),
            ));
        }
        while i < n
            invariant
                n == self.cache.packages@.len(),
                i <= n,
                is_glob == has_wildcard(name@),
                resolved_views(out@) == cached_views(
                    cache_hits(self.cache.packages@.take(i as int), name@),
                ),
            decreases n - i,
        {
            let cached = &self.cache.packages[i];
            let matched = if is_glob {
                glob_match(cached.package.name.as_str(), name)
            } else {
                str_eq(cached.package.name.as_str(), name)
            };
            proof {
                if !is_glob {
                    lemma_exact_without_wildcard(cached.package.name@, name@);
                }
                assert(matched == glob_match_spec(cached.package.name@, name@));
            }
            let ghost old_out = out@;
            if matched {
                out.push(ResolvedPackage::new(cached.package.clone(), cached.source.clone()));
            }
            proof {
                let pre = self.cache.packages@.take(i as int);
                let entry = self.cache.packages@[i as int];
                assert(self.cache.packages@.take(i + 1) =~= pre.push(entry));
                lemma_cache_hits_push(pre, entry, name@);
                if matched {
                    assert(resolved_views(out@) =~= resolved_views(old_out).push(
                        (entry.package@, entry.source@),
                    ));
                    assert(cached_views(cache_hits(pre, name@).push(entry)) =~= cached_views(
                        cache_hits(pre, name@),
                    ).push((entry.package@, entry.source@)));
                }
                assert(resolved_views(out@) =~= cached_views(
                    cache_hits(self.cache.packages@.take(i + 1), name@),
                ));
            }
            i += 1;
        }
        proof {
            assert(self.cache.packages@.take(n as int) =~= self.cache.packages@);
        }
        if out.len() > 0 {
            return Ok(out);
        }
        proof {
            assert(cache_hits(self.cache.packages@, name@).len() == 0);
        }
        if !is_glob {
            match self.installed.get_package(name) {
                Some(inst) => {
                    match &inst.source {
                        PackageSource::DirectRepo { url } => {
                            return match self.resolve_from_url(url.as_str()) {
                                Ok(pkg) => {
                                    let mut v: Vec<ResolvedPackage> = Vec::new();
                                    v.push(pkg);
                                    Ok(v)
                                },
                                Err(e) => Err(e),
                            };
                        },
                        PackageSource::Bucket { .. } => {},
                    }
                },
                None => {},
            }
        }
        Err(WenError::NotFound)
    }

    /// Resolve a package from a repository URL, tagging it as a direct
    /// repository.
    pub fn resolve_from_url(&self, url: &str) -> (r: Result<ResolvedPackage, WenError>)
        ensures
            r matches Ok(rp) ==> rp.source@ == (SourceView::DirectRepo { url: url@ }),
    {
        match self.provider.fetch_package(url) {
            Ok(package) => {
                let source = PackageSource::DirectRepo { url: url.to_owned() };
                Ok(ResolvedPackage::new(package, source))
            },
            Err(e) => Err(e),
        }
    }

    /// The latest version of a repository, as the provider reports it.
    pub fn fetch_latest_version(&self, repo_url: &str) -> Result<String, WenError> {
        self.provider.fetch_latest_version(repo_url)
    }

    /// The repository URL of the first cache entry carrying `name`, if any.
    fn cache_repo_for(&self, name: &str) -> (r: Option<String>)
        ensures
            match r {
                Some(u) => first_cache_index(self.cache.packages@, name@) matches Some(i) && u@
                    == self.cache.packages@[i].package.repo@,
                None => first_cache_index(self.cache.packages@, name@) is None,
            },
    {
        let n: usize = self.cache.packages.len();
        let mut i: usize = 0;
        while i < n
            invariant
                n == self.cache.packages@.len(),
                i <= n,
                forall|j: int| 0 <= j < i ==> self.cache.packages@[j].package.name@ != name@,
            decreases n - i,
        {
            if str_eq(self.cache.packages[i].package.name.as_str(), name) {
                proof {
                    lemma_cache_index_at(self.cache.packages@, i as int, name@);
                }
                return Some(self.cache.packages[i].package.repo.clone());
            }
            i += 1;
        }
        proof {
            lemma_cache_index_absent(self.cache.packages@, name@);
        }
        None
    }

    /// Find upgradeable packages by checking their sources: for each
    /// installed package take its repository URL — for bucket provenance
    /// the repository of the first cache entry of that name, for direct
    /// provenance the stored URL — ask the provider for the latest version,
    /// and keep, through `upgrade_candidate`, the packages whose installed
    /// version differs. Every returned row names an installed package with
    /// a determinable repository, and no name is returned twice; a package
    /// whose repository cannot be determined, or whose version lookup
    /// fails, is skipped, so which rows of the installed state appear also
    /// rests on the provider's answers.
    pub fn find_upgradeable(&self) -> (r: Vec<UpgradeCandidate>)
        requires
            self.installed.wf(),
        ensures
            forall|k: int|
                0 <= k < r@.len() ==> upgrade_row_ok(
                    self.cache.packages@,
                    self.installed.packages@,
                    #[trigger] r@[k],
                ),
            forall|k1: int, k2: int|
                0 <= k1 < k2 < r@.len() ==> r@[k1].name@ != r@[k2].name@,
    {
        let n: usize = self.installed.packages.len();
        let ghost entries = self.installed.packages@;
        let mut out: Vec<UpgradeCandidate> = Vec::new();
        let ghost mut idxs: Seq<int> = Seq::empty();
        let mut i: usize = 0;
        while i < n
            invariant
                self.installed.wf(),
                entries == self.installed.packages@,
                n == entries.len(),
                i <= n,
                idxs.len() == out@.len(),
                forall|k: int| 0 <= k < idxs.len() ==> 0 <= #[trigger] idxs[k] < i,
                forall|k1: int, k2: int| 0 <= k1 < k2 < idxs.len() ==> idxs[k1] < idxs[k2],
                forall|k: int|
                    0 <= k < out@.len() ==> (#[trigger] out@[k]).name@ == entries[idxs[k]].name@,
                forall|k: int|
                    0 <= k < out@.len() ==> upgrade_row_ok(
                        self.cache.packages@,
                        entries,
                        #[trigger] out@[k],
                    ),
            decreases n - i,
        {
            let entry = &self.installed.packages[i];
            let repo_url: Option<String> = match &entry.package.source {
                PackageSource::Bucket { .. } => self.cache_repo_for(entry.name.as_str()),
                PackageSource::DirectRepo { url } => Some(url.clone()),
            };
            match repo_url {
                Some(repo) => {
                    match self.provider.fetch_latest_version(repo.as_str()) {
                        Ok(latest) => {
                            match upgrade_candidate(entry, latest) {
                                Some(c) => {
                                    let ghost old_out = out@;
                                    let ghost old_idxs = idxs;
                                    proof {
                                        assert forall|j: int| 0 <= j < i implies entries[j].name@
                                            != entry.name@ by {
                                            assert(entries[j].name@ != entries[i as int].name@);
                                        }
                                        crate::manifest::lemma_lookup_at_first(
                                            entries,
                                            i as int,
                                            entry.name@,
                                        );
                                        assert(repo_for(
                                            self.cache.packages@,
                                            entry.name@,
                                            entry.package,
                                        ) is Some);
                                        idxs = idxs.push(i as int);
                                    }
                                    out.push(c);
                                    proof {
                                        assert forall|k: int|
                                            0 <= k < out@.len() implies upgrade_row_ok(
                                            self.cache.packages@,
                                            entries,
                                            #[trigger] out@[k],
                                        ) by {
                                            if k < old_out.len() {
                                                assert(out@[k] == old_out[k]);
                                            } else {
                                                assert(out@[k] == c);
                                            }
                                        }
                                        assert forall|k: int|
                                            0 <= k < out@.len() implies (#[trigger] out@[k]).name@
                                            == entries[idxs[k]].name@ by {
                                            if k < old_out.len() {
                                                assert(out@[k] == old_out[k]);
                                                assert(idxs[k] == old_idxs[k]);
                                            } else {
                                                assert(out@[k] == c);
                                                assert(idxs[k] == i as int);
                                            }
                                        }
                                    }
                                },
                                None => {},
                            }
                        },
                        Err(_) => {},
                    }
                },
                None => {},
            }
            i += 1;
        }
        proof {
            assert forall|k1: int, k2: int| 0 <= k1 < k2 < out@.len() implies out@[k1].name@
                != out@[k2].name@ by {
                assert(out@[k1].name@ == entries[idxs[k1]].name@);
                assert(out@[k2].name@ == entries[idxs[k2]].name@);
                assert(idxs[k1] < idxs[k2] < entries.len());
            }
        }
        out
    }
}

} // verus!
