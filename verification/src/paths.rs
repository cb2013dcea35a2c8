//! The on-disk layout rooted at `~/.wenget`.
//!
//! The root is an explicit configuration value built once — from the home
//! directory, or from any directory handed in — and threaded through every
//! component, so tests can inject a temporary root. Paths are plain strings
//! joined with `/`.

use crate::errors::WenError;
use vstd::prelude::*;
use vstd::string::*;

verus! {

/// `base` and `seg` joined with the path separator.
pub open spec fn joined(base: Seq<char>, seg: Seq<char>) -> Seq<char> {
    base + seq!['/'] + seg
}

/// Join one path segment onto a base path.
fn path_join(base: &str, seg: &str) -> (r: String)
    ensures
        r@ == joined(base@, seg@),
{
    let mut r = base.to_owned();
    r.append("/");
    r.append(seg);
    proof {
        reveal_strlit("/");
        assert("/"@ =~= seq!['/']);
        assert(r@ =~= joined(base@, seg@));
    }
    r
}

/// Relies on dirs::home_dir: the user's home directory as the environment
/// reports it, if any; nothing is assumed of the value.
#[verifier::external_body]
fn home_dir_string() -> (r: Option<String>) {
    match dirs::home_dir() {
        Some(p) => Some(p.to_string_lossy().into_owned()),
        None => None,
    }
}

/// Relies on std::path::Path::exists: whether the path exists on disk at
/// this moment; nothing is assumed of the answer.
#[verifier::external_body]
fn path_exists(p: &str) -> (r: bool) {
    std::path::Path::new(p).exists()
}

/// Paths manager: every location the tool uses, derived from one root.
#[derive(Debug)]
pub struct WenPaths {
    /// Root directory (`~/.wenget` by default).
    pub root: String,
}

impl Clone for WenPaths {
    fn clone(&self) -> (r: Self)
        ensures
            r == *self,
    {
        WenPaths { root: self.root.clone() }
    }
}

impl WenPaths {
    /// Derive the root from the home directory. Fails with `IOError` when
    /// the environment reports no home directory.
    pub fn new() -> (r: Result<Self, WenError>)
        ensures
            r matches Ok(p) ==> exists|h: Seq<char>| p.root@ == joined(h, ".wenget"@),
            r matches Err(e) ==> e == WenError::IOError,
    {
        match home_dir_string() {
            Some(home) => {
                let root = path_join(home.as_str(), ".wenget");
                proof {
                    assert(root@ == joined(home@, ".wenget"@));
                }
                Ok(WenPaths { root })
            },
            None => Err(WenError::IOError),
        }
    }

    /// Use an explicit root directory, for hermetic setups.
    pub fn from_root(root: String) -> (r: Self)
        ensures
            r.root == root,
    {
        WenPaths { root }
    }

    /// The root directory.
    pub fn root(&self) -> (r: &str)
        ensures
            r@ == self.root@,
    {
        self.root.as_str()
    }

    /// The sources manifest path (`sources.json` under the root).
    pub fn sources_json(&self) -> (r: String)
        ensures
            r@ == joined(self.root@, "sources.json"@),
    {
        path_join(self.root.as_str(), "sources.json")
    }

    /// The installed manifest path (`installed.json` under the root).
    pub fn installed_json(&self) -> (r: String)
        ensures
            r@ == joined(self.root@, "installed.json"@),
    {
        path_join(self.root.as_str(), "installed.json")
    }

    /// The buckets config path (`buckets.json` under the root).
    pub fn buckets_json(&self) -> (r: String)
        ensures
            r@ == joined(self.root@, "buckets.json"@),
    {
        path_join(self.root.as_str(), "buckets.json")
    }

    /// The manifest cache path (`manifest-cache.json` under the root).
    pub fn manifest_cache_json(&self) -> (r: String)
        ensures
            r@ == joined(self.root@, "manifest-cache.json"@),
    {
        path_join(self.root.as_str(), "manifest-cache.json")
    }

    /// The apps directory.
    pub fn apps_dir(&self) -> (r: String)
        ensures
            r@ == joined(self.root@, "apps"@),
    {
        path_join(self.root.as_str(), "apps")
    }

    /// A specific app's directory under the apps directory.
    pub fn app_dir(&self, name: &str) -> (r: String)
        ensures
            r@ == joined(joined(self.root@, "apps"@), name@),
    {
        let apps = self.apps_dir();
        path_join(apps.as_str(), name)
    }

    /// A specific app's bin directory.
    pub fn app_bin_dir(&self, name: &str) -> (r: String)
        ensures
            r@ == joined(joined(joined(self.root@, "apps"@), name@), "bin"@),
    {
        let app = self.app_dir(name);
        path_join(app.as_str(), "bin")
    }

    /// The shared bin directory that launchers are placed in.
    pub fn bin_dir(&self) -> (r: String)
        ensures
            r@ == joined(self.root@, "bin"@),
    {
        path_join(self.root.as_str(), "bin")
    }

    /// The cache directory.
    pub fn cache_dir(&self) -> (r: String)
        ensures
            r@ == joined(self.root@, "cache"@),
    {
        path_join(self.root.as_str(), "cache")
    }

    /// The downloads staging directory under the cache directory.
    pub fn downloads_dir(&self) -> (r: String)
        ensures
            r@ == joined(joined(self.root@, "cache"@), "downloads"@),
    {
        let cache = self.cache_dir();
        path_join(cache.as_str(), "downloads")
    }

    /// Whether the root directory exists on disk; the answer depends on the
    /// disk alone.
    pub fn is_initialized(&self) -> bool {
        path_exists(self.root.as_str())
    }

    /// The launcher path for an app in the shared bin directory.
    pub fn bin_shim_path(&self, name: &str) -> (r: String)
        ensures
            r@ == joined(joined(self.root@, "bin"@), name@),
    {
        let bin = self.bin_dir();
        path_join(bin.as_str(), name)
    }

    /// The executable file name for an app: the bare name, with no
    /// platform suffix.
    pub fn executable_name(name: &str) -> (r: String)
        ensures
            r@ == name@,
    {
        name.to_owned()
    }
}

} // verus!
