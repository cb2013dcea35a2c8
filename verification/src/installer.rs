//! The install pipeline: a linear state machine from a selected binary to a
//! completed installation.
//!
//! The pipeline decides; the surrounding application acts. Each outside step
//! — downloading, extracting, checking the disk, creating the launcher,
//! cleaning up — is performed by the caller, which reports its outcome back
//! through one transition method. The machine pins down exactly which state
//! follows from each outcome, so a failed stage aborts only this package's
//! pipeline and success is reached only through every stage in order.

use crate::errors::WenError;
use crate::manifest::{BinaryAsset, InstalledPackage, PackageSource};
use crate::strutil::{str_concat, str_eq};
use vstd::prelude::*;
use vstd::string::*;

verus! {

/// The text after the last separator; the whole text when the separator
/// does not occur.
pub open spec fn last_segment(s: Seq<char>, sep: char) -> Seq<char>
    decreases s.len(),
{
    if s.len() == 0 {
        s
    } else if s.last() == sep {
        Seq::empty()
    } else {
        last_segment(s.drop_last(), sep).push(s.last())
    }
}

proof fn lemma_last_segment_after(s: Seq<char>, sep: char, k: int)
    requires
        0 <= k < s.len(),
        s[k] == sep,
        forall|j: int| k < j < s.len() ==> s[j] != sep,
    ensures
        last_segment(s, sep) == s.subrange(k + 1, s.len() as int),
    decreases s.len(),
{
    if k == s.len() - 1 {
        assert(s.subrange(k + 1, s.len() as int) =~= Seq::<char>::empty());
    } else {
        lemma_last_segment_after(s.drop_last(), sep, k);
        assert(s.drop_last().subrange(k + 1, s.len() - 1).push(s.last()) =~= s.subrange(
            k + 1,
            s.len() as int,
        ));
    }
}

proof fn lemma_last_segment_nosep(s: Seq<char>, sep: char)
    requires
        forall|j: int| 0 <= j < s.len() ==> s[j] != sep,
    ensures
        last_segment(s, sep) == s,
    decreases s.len(),
{
    if s.len() > 0 {
        lemma_last_segment_nosep(s.drop_last(), sep);
        assert(s.drop_last().push(s.last()) =~= s);
    }
}

/// The final path segment of `s`, after the last `/`.
fn last_path_segment(s: &str) -> (r: String)
    ensures
        r@ == last_segment(s@, '/'),
{
    let v = crate::strutil::str_chars(s);
    let n: usize = v.len();
    let mut i: usize = 0;
    let mut found: Option<usize> = None;
    while i < n
        invariant
            n == s@.len(),
            v@ == s@,
            i <= n,
            match found {
                Some(k) => k < i && s@[k as int] == '/' && (forall|j: int|
                    k < j < i ==> s@[j] != '/'),
                None => forall|j: int| 0 <= j < i ==> s@[j] != '/',
            },
        decreases n - i,
    {
        if v[i] == '/' {
            found = Some(i);
        }
        i += 1;
    }
    match found {
        Some(k) => {
            proof {
                lemma_last_segment_after(s@, '/', k as int);
            }
            let seg = s.substring_char(k + 1, n);
            seg.to_owned()
        },
        None => {
            proof {
                lemma_last_segment_nosep(s@, '/');
            }
            s.to_owned()
        },
    }
}

/// The destination filename derived from an asset URL: its final path
/// segment; an URL without one is rejected as `InputError`.
pub fn filename_from_url(url: &str) -> (r: Result<String, WenError>)
    ensures
        last_segment(url@, '/').len() > 0 ==> (r matches Ok(f) && f@ == last_segment(url@, '/')),
        last_segment(url@, '/').len() == 0 ==> r == Err::<String, WenError>(WenError::InputError),
{
    let seg = last_path_segment(url);
    if seg.as_str().unicode_len() == 0 {
        Err(WenError::InputError)
    } else {
        Ok(seg)
    }
}

/// Is this path's base name the executable of the package `name`, allowing
/// a platform suffix?
pub open spec fn is_exe_for(path: Seq<char>, name: Seq<char>) -> bool {
    last_segment(path, '/') == name || last_segment(path, '/') == name + ".exe"@
}

/// The first file whose base name matches the package name.
pub open spec fn first_exe_index(files: Seq<String>, name: Seq<char>) -> Option<int>
    decreases files.len(),
{
    if files.len() == 0 {
        None
    } else if is_exe_for(files[0]@, name) {
        Some(0int)
    } else {
        match first_exe_index(files.drop_first(), name) {
            Some(j) => Some(j + 1),
            None => None,
        }
    }
}

proof fn lemma_exe_index_at(files: Seq<String>, i: int, name: Seq<char>)
    requires
        0 <= i < files.len(),
        is_exe_for(files[i]@, name),
        forall|j: int| 0 <= j < i ==> !is_exe_for(files[j]@, name),
    ensures
        first_exe_index(files, name) == Some(i),
    decreases i,
{
    if i > 0 {
        lemma_exe_index_at(files.drop_first(), i - 1, name);
    }
}

proof fn lemma_exe_index_absent(files: Seq<String>, name: Seq<char>)
    requires
        forall|j: int| 0 <= j < files.len() ==> !is_exe_for(files[j]@, name),
    ensures
        first_exe_index(files, name) is None,
    decreases files.len(),
{
    if files.len() > 0 {
        lemma_exe_index_absent(files.drop_first(), name);
    }
}

/// Search extracted files for an executable whose base name matches the
/// package name, allowing a platform suffix; the first match wins.
pub fn find_executable(files: &Vec<String>, name: &str) -> (r: Option<String>)
    ensures
        first_exe_index(files@, name@) matches Some(i) ==> (r matches Some(f) && f@
            == files@[i]@),
        first_exe_index(files@, name@) is None ==> r is None,
{
    let suffixed = str_concat(name, ".exe");
    let n: usize = files.len();
    let mut i: usize = 0;
    while i < n
        invariant
            n == files@.len(),
            suffixed@ == name@ + ".exe"@,
            i <= n,
            forall|j: int| 0 <= j < i ==> !is_exe_for(files@[j]@, name@),
        decreases n - i,
    {
        let base = last_path_segment(files[i].as_str());
        if str_eq(base.as_str(), name) || str_eq(base.as_str(), suffixed.as_str()) {
            proof {
                lemma_exe_index_at(files@, i as int, name@);
            }
            return Some(files[i].clone());
        }
        i += 1;
    }
    proof {
        lemma_exe_index_absent(files@, name@);
    }
    None
}

/// Relies on std's SystemTime::now: the current time as Unix seconds. A
/// clock before the epoch or out of the signed range clamps instead of
/// failing; the value depends on the clock and nothing is assumed of it.
#[verifier::external_body]
fn now_timestamp() -> (r: i64) {
    match std::time::SystemTime::now().duration_since(std::time::UNIX_EPOCH) {
        Ok(d) => i64::try_from(d.as_secs()).unwrap_or(i64::MAX),
        Err(_) => 0,
    }
}

/// The stage a pipeline failure is charged to.
#[derive(Debug, Clone, Copy, PartialEq, Eq, Structural)]
pub enum InstallStage {
    Download,
    Extract,
    LocateExecutable,
    CreateLauncher,
    Cleanup,
}

/// The states of the install pipeline. `CleanedUp` is terminal success;
/// `Failed` is terminal failure and commits nothing.
#[derive(Debug, Clone, Copy, PartialEq, Eq, Structural)]
pub enum InstallState {
    Selected,
    Downloading,
    Downloaded,
    Extracting,
    ExecutableLocated,
    LauncherCreated,
    CleanedUp,
    Failed { stage: InstallStage, cause: WenError },
}

/// The descriptive fields of a job never change across transitions.
pub open spec fn same_identity(a: InstallJob, b: InstallJob) -> bool {
    a.package_name == b.package_name && a.platform_id == b.platform_id && a.asset == b.asset
}

/// One package's trip through the pipeline: the selected binary, what has
/// been learned so far, and the current state.
#[derive(Debug)]
pub struct InstallJob {
    /// Name of the package being installed.
    pub package_name: String,
    /// The host identifier the binary was selected for.
    pub platform_id: String,
    /// The selected binary.
    pub asset: BinaryAsset,
    /// Filename the download is staged under, from `begin_download` on.
    pub dest_filename: String,
    /// Relative paths written by extraction, from `finish_extract` on.
    pub files: Vec<String>,
    /// The located executable, relative to the install directory.
    pub executable: Option<String>,
    /// Current pipeline state.
    pub state: InstallState,
}

impl InstallJob {
    /// A freshly selected job.
    pub fn new(package_name: String, platform_id: String, asset: BinaryAsset) -> (r: Self)
        ensures
            r.package_name == package_name,
            r.platform_id == platform_id,
            r.asset == asset,
            r.dest_filename@.len() == 0,
            r.files@.len() == 0,
            r.executable is None,
            r.state == InstallState::Selected,
    {
        InstallJob {
            package_name,
            platform_id,
            asset,
            dest_filename: String::new(),
            files: Vec::new(),
            executable: None,
            state: InstallState::Selected,
        }
    }

    /// Derive the staging filename from the asset URL and start the
    /// download, or fail the job when the URL has no final path segment.
    pub fn begin_download(&mut self)
        requires
            old(self).state == InstallState::Selected,
        ensures
            same_identity(*final(self), *old(self)),
            final(self).files == old(self).files,
            final(self).executable == old(self).executable,
            last_segment(old(self).asset.url@, '/').len() > 0 ==> final(self).state
                == InstallState::Downloading && final(self).dest_filename@ == last_segment(
                old(self).asset.url@,
                '/',
            ),
            last_segment(old(self).asset.url@, '/').len() == 0 ==> final(self).state
                == (InstallState::Failed {
                stage: InstallStage::Download,
                cause: WenError::InputError,
            }),
    {
        match filename_from_url(self.asset.url.as_str()) {
            Ok(f) => {
                self.dest_filename = f;
                self.state = InstallState::Downloading;
            },
            Err(e) => {
                self.state = InstallState::Failed { stage: InstallStage::Download, cause: e };
            },
        }
    }

    /// Record the outcome of streaming the asset to the staging directory.
    pub fn finish_download(&mut self, outcome: Result<(), WenError>)
        requires
            old(self).state == InstallState::Downloading,
        ensures
            same_identity(*final(self), *old(self)),
            final(self).dest_filename == old(self).dest_filename,
            final(self).files == old(self).files,
            final(self).executable == old(self).executable,
            outcome matches Ok(u) ==> final(self).state == InstallState::Downloaded,
            outcome matches Err(e) ==> final(self).state == (InstallState::Failed {
                stage: InstallStage::Download,
                cause: e,
            }),
    {
        match outcome {
            Ok(()) => {
                self.state = InstallState::Downloaded;
            },
            Err(e) => {
                self.state = InstallState::Failed { stage: InstallStage::Download, cause: e };
            },
        }
    }

    /// Start unpacking into a fresh install directory; any previous
    /// installation is removed first by the caller.
    pub fn begin_extract(&mut self)
        requires
            old(self).state == InstallState::Downloaded,
        ensures
            same_identity(*final(self), *old(self)),
            final(self).dest_filename == old(self).dest_filename,
            final(self).files == old(self).files,
            final(self).executable == old(self).executable,
            final(self).state == InstallState::Extracting,
    {
        self.state = InstallState::Extracting;
    }

    /// Record the outcome of extraction and locate the executable among the
    /// written files. On success the executable candidate still awaits the
    /// caller's on-disk confirmation.
    pub fn finish_extract(&mut self, outcome: Result<Vec<String>, WenError>)
        requires
            old(self).state == InstallState::Extracting,
            old(self).executable is None,
        ensures
            same_identity(*final(self), *old(self)),
            final(self).dest_filename == old(self).dest_filename,
            outcome matches Err(e) ==> final(self).state == (InstallState::Failed {
                stage: InstallStage::Extract,
                cause: e,
            }),
            outcome matches Ok(files) ==> final(self).files == files && (match first_exe_index(
                files@,
                old(self).package_name@,
            ) {
                Some(i) => final(self).executable matches Some(f) && f@ == files@[i]@
                    && final(self).state == InstallState::Extracting,
                None => final(self).state == (InstallState::Failed {
                    stage: InstallStage::LocateExecutable,
                    cause: WenError::ExecutableNotFound,
                }),
            }),
    {
        match outcome {
            Ok(files) => {
                let exe = find_executable(&files, self.package_name.as_str());
                self.files = files;
                match exe {
                    Some(f) => {
                        self.executable = Some(f);
                    },
                    None => {
                        self.state = InstallState::Failed {
                            stage: InstallStage::LocateExecutable,
                            cause: WenError::ExecutableNotFound,
                        };
                    },
                }
            },
            Err(e) => {
                self.state = InstallState::Failed { stage: InstallStage::Extract, cause: e };
            },
        }
    }

    /// Record whether the located executable actually exists on disk.
    pub fn confirm_executable(&mut self, exists_on_disk: bool)
        requires
            old(self).state == InstallState::Extracting,
            old(self).executable is Some,
        ensures
            same_identity(*final(self), *old(self)),
            final(self).dest_filename == old(self).dest_filename,
            final(self).files == old(self).files,
            final(self).executable == old(self).executable,
            exists_on_disk ==> final(self).state == InstallState::ExecutableLocated,
            !exists_on_disk ==> final(self).state == (InstallState::Failed {
                stage: InstallStage::LocateExecutable,
                cause: WenError::ExecutableNotFound,
            }),
    {
        if exists_on_disk {
            self.state = InstallState::ExecutableLocated;
        } else {
            self.state = InstallState::Failed {
                stage: InstallStage::LocateExecutable,
                cause: WenError::ExecutableNotFound,
            };
        }
    }

    /// Record the outcome of creating the launcher in the shared bin
    /// directory.
    pub fn finish_launcher(&mut self, outcome: Result<(), WenError>)
        requires
            old(self).state == InstallState::ExecutableLocated,
        ensures
            same_identity(*final(self), *old(self)),
            final(self).dest_filename == old(self).dest_filename,
            final(self).files == old(self).files,
            final(self).executable == old(self).executable,
            outcome matches Ok(u) ==> final(self).state == InstallState::LauncherCreated,
            outcome matches Err(e) ==> final(self).state == (InstallState::Failed {
                stage: InstallStage::CreateLauncher,
                cause: e,
            }),
    {
        match outcome {
            Ok(()) => {
                self.state = InstallState::LauncherCreated;
            },
            Err(e) => {
                self.state = InstallState::Failed { stage: InstallStage::CreateLauncher, cause: e };
            },
        }
    }

    /// Complete the pipeline after the staged archive was deleted, or was
    /// attempted to be: a failed deletion is non-fatal, the install itself
    /// already succeeded.
    pub fn finish_cleanup(&mut self)
        requires
            old(self).state == InstallState::LauncherCreated,
        ensures
            same_identity(*final(self), *old(self)),
            final(self).dest_filename == old(self).dest_filename,
            final(self).files == old(self).files,
            final(self).executable == old(self).executable,
            final(self).state == InstallState::CleanedUp,
    {
        self.state = InstallState::CleanedUp;
    }

    /// The record to persist for a completed installation.
    pub fn installed_record(
        &self,
        version: String,
        install_path: String,
        source: PackageSource,
        description: String,
    ) -> (r: InstalledPackage)
        requires
            self.state == InstallState::CleanedUp,
        ensures
            r.version == version,
            r.platform == self.platform_id,
            r.install_path == install_path,
            r.files@ == self.files@,
            r.source == source,
            r.description == description,
    {
        InstalledPackage {
            version,
            platform: self.platform_id.clone(),
            installed_at: now_timestamp(),
            install_path,
            files: self.files.clone(),
            source,
            description,
        }
    }
}

} // verus!
