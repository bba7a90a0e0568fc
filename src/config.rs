//! The layer composition, its construction rules, and the masking policy that
//! a composition must satisfy before it is mounted.
use vstd::prelude::*;

use crate::paths::{contains_path, is_absolute, join, join_path, opt_view, path_is_absolute, seq_view};
use crate::rsync::{SyncMode, SyncModeView};

verus! {

/// Declares `std::io::Error` so that a failed file-system operation can be
/// carried, unread, inside the library's errors.
#[verifier::external_type_specification]
#[verifier::external_body]
pub struct ExIoError(std::io::Error);

/// A file-system operation failed at the given path.
#[derive(Debug)]
pub struct IOErrorAtPath(pub String, pub std::io::Error);

/// Why a composition, or a part of one, is refused.
#[derive(Debug)]
pub enum ValidationError {
    /// A path (first) that must be relative to its parent (second) is absolute.
    NonRelative(String, String),
    /// The file system could not be read.
    IOError(IOErrorAtPath),
    /// Files of the writable layer that hide files of the lower layers.
    MaskedFiles(Vec<String>),
}

/// The outcome of a failed validation.
#[derive(Debug)]
pub enum ConfigError {
    /// A directory of the upper source could not be created.
    CreateDirError(IOErrorAtPath),
    /// The composition breaks the layering policy.
    ValidationError(ValidationError),
}

/// `e` reports that `sub` is absolute while it must be relative to `base`.
pub open spec fn names_non_relative(e: ValidationError, sub: Seq<char>, base: Seq<char>) -> bool {
    e matches ValidationError::NonRelative(a, b) && a@ == sub && b@ == base
}

/// Refuses a `subdir` that is absolute; `volume` is the parent it must be
/// relative to.
pub fn enforce_relative(volume: &String, subdir: Option<&String>) -> (r: Result<(), ValidationError>)
    ensures
        match subdir {
            Some(s) => if is_absolute(s@) {
                r matches Err(e) && names_non_relative(e, s@, volume@)
            } else {
                r is Ok
            },
            None => r is Ok,
        },
{
    if let Some(subdir) = subdir {
        if path_is_absolute(subdir.as_str()) {
            return Err(ValidationError::NonRelative(subdir.clone(), volume.clone()));
        }
    }
    Ok(())
}

/// The mathematical model of a [`LowerDir`].
pub struct LowerDirView {
    pub volume: Seq<char>,
    pub subdir: Option<Seq<char>>,
    pub sync_mode: SyncModeView,
}

impl LowerDirView {
    /// The subdirectory, if any, is relative to the volume.
    pub open spec fn wf(self) -> bool {
        self.subdir matches Some(s) ==> !is_absolute(s)
    }

    /// The directory that the source's content lies in.
    pub open spec fn full_path(self) -> Seq<char> {
        match self.subdir {
            Some(s) => join(self.volume, s),
            None => self.volume,
        }
    }

    /// The directory that the mount reads the source from: the mirror's
    /// destination for a mirrored source.
    pub open spec fn mount_path(self) -> Seq<char> {
        match self.sync_mode {
            SyncModeView::NoSync => self.full_path(),
            SyncModeView::Once(d) => d,
            SyncModeView::Constant(d) => d,
        }
    }
}

/// A read-only contribution to the union.
#[derive(Debug)]
pub struct LowerDir {
    volume: String,
    subdir: Option<String>,
    sync_mode: SyncMode,
}

impl View for LowerDir {
    type V = LowerDirView;

    closed spec fn view(&self) -> LowerDirView {
        LowerDirView { volume: self.volume@, subdir: opt_view(self.subdir), sync_mode: self.sync_mode@ }
    }
}

impl Clone for LowerDir {
    fn clone(&self) -> (r: Self)
        ensures
            r@ == self@,
    {
        let subdir = match &self.subdir {
            Some(s) => Some(s.clone()),
            None => None,
        };
        LowerDir { volume: self.volume.clone(), subdir, sync_mode: self.sync_mode.clone() }
    }
}

impl LowerDir {
    /// A lower source that is not mirrored.
    pub fn new(volume: String, subdir: Option<String>) -> (r: Result<Self, ValidationError>)
        ensures
            match subdir {
                Some(s) if is_absolute(s@) => r matches Err(e) && names_non_relative(e, s@, volume@),
                _ => r matches Ok(d) && d@ == (LowerDirView {
                    volume: volume@,
                    subdir: opt_view(subdir),
                    sync_mode: SyncModeView::NoSync,
                }) && d@.wf(),
            },
    {
        Self::new_with_sync(volume, subdir, SyncMode::NoSync)
    }

    /// A lower source kept in step with its origin as `sync_mode` says.
    pub fn new_with_sync(volume: String, subdir: Option<String>, sync_mode: SyncMode) -> (r: Result<
        Self,
        ValidationError,
    >)
        ensures
            match subdir {
                Some(s) if is_absolute(s@) => r matches Err(e) && names_non_relative(e, s@, volume@),
                _ => r matches Ok(d) && d@ == (LowerDirView {
                    volume: volume@,
                    subdir: opt_view(subdir),
                    sync_mode: sync_mode@,
                }) && d@.wf(),
            },
    {
        enforce_relative(&volume, subdir.as_ref())?;
        Ok(LowerDir { volume, subdir, sync_mode })
    }

    /// The base path of the source.
    pub fn volume(&self) -> (r: &String)
        ensures
            r@ == self@.volume,
    {
        &self.volume
    }

    /// The subdirectory of the volume that holds the content, if any.
    pub fn subdir(&self) -> (r: &Option<String>)
        ensures
            opt_view(*r) == self@.subdir,
    {
        &self.subdir
    }

    /// The volume joined with the subdirectory, if there is one.
    pub fn full_path(&self) -> (r: String)
        ensures
            r@ == self@.full_path(),
    {
        match &self.subdir {
            Some(subdir) => join_path(self.volume.as_str(), subdir.as_str()),
            None => self.volume.clone(),
        }
    }

    pub fn sync_mode(&self) -> (r: &SyncMode)
        ensures
            r@ == self@.sync_mode,
    {
        &self.sync_mode
    }

    /// The path that the mount reads this source from.
    pub fn mount_path(&self) -> (r: String)
        ensures
            r@ == self@.mount_path(),
    {
        match &self.sync_mode {
            SyncMode::NoSync => self.full_path(),
            SyncMode::Once(target) => target.clone(),
            SyncMode::Constant(target) => target.clone(),
        }
    }
}

/// The mathematical model of an [`UpperDir`].
pub struct UpperDirView {
    pub volume: Seq<char>,
    pub upper_subdir: Seq<char>,
    pub work_subdir: Seq<char>,
    pub merged_subdir: Seq<char>,
}

impl UpperDirView {
    /// All three subdirectories are relative to the volume.
    pub open spec fn wf(self) -> bool {
        &&& !is_absolute(self.upper_subdir)
        &&& !is_absolute(self.work_subdir)
        &&& !is_absolute(self.merged_subdir)
    }

    /// Where the writable content lies.
    pub open spec fn upper_path(self) -> Seq<char> {
        join(self.volume, self.upper_subdir)
    }

    /// The scratch space of the union mount.
    pub open spec fn work_path(self) -> Seq<char> {
        join(self.volume, self.work_subdir)
    }

    /// The mount point that exposes the composed view.
    pub open spec fn merged_path(self) -> Seq<char> {
        join(self.volume, self.merged_subdir)
    }
}

/// The single writable contribution to the union.
#[derive(Debug)]
pub struct UpperDir {
    volume: String,
    upper_subdir: String,
    work_subdir: String,
    merged_subdir: String,
}

impl View for UpperDir {
    type V = UpperDirView;

    closed spec fn view(&self) -> UpperDirView {
        UpperDirView {
            volume: self.volume@,
            upper_subdir: self.upper_subdir@,
            work_subdir: self.work_subdir@,
            merged_subdir: self.merged_subdir@,
        }
    }
}

impl Clone for UpperDir {
    fn clone(&self) -> (r: Self)
        ensures
            r@ == self@,
    {
        UpperDir {
            volume: self.volume.clone(),
            upper_subdir: self.upper_subdir.clone(),
            work_subdir: self.work_subdir.clone(),
            merged_subdir: self.merged_subdir.clone(),
        }
    }
}

impl UpperDir {
    /// An upper source; the first of the three subdirectories, in the order
    /// upper, work, merged, that is absolute is refused.
    pub fn new(volume: String, upper_subdir: String, work_subdir: String, merged_subdir: String) -> (r:
        Result<Self, ValidationError>)
        ensures
            if is_absolute(upper_subdir@) {
                r matches Err(e) && names_non_relative(e, upper_subdir@, volume@)
            } else if is_absolute(work_subdir@) {
                r matches Err(e) && names_non_relative(e, work_subdir@, volume@)
            } else if is_absolute(merged_subdir@) {
                r matches Err(e) && names_non_relative(e, merged_subdir@, volume@)
            } else {
                r matches Ok(d) && d@ == (UpperDirView {
                    volume: volume@,
                    upper_subdir: upper_subdir@,
                    work_subdir: work_subdir@,
                    merged_subdir: merged_subdir@,
                }) && d@.wf()
            },
    {
        enforce_relative(&volume, Some(&upper_subdir))?;
        enforce_relative(&volume, Some(&work_subdir))?;
        enforce_relative(&volume, Some(&merged_subdir))?;
        Ok(UpperDir { volume, upper_subdir, work_subdir, merged_subdir })
    }

    /// The base path of the source.
    pub fn volume(&self) -> (r: &String)
        ensures
            r@ == self@.volume,
    {
        &self.volume
    }

    pub fn upper_subdir(&self) -> (r: &String)
        ensures
            r@ == self@.upper_subdir,
    {
        &self.upper_subdir
    }

    pub fn work_subdir(&self) -> (r: &String)
        ensures
            r@ == self@.work_subdir,
    {
        &self.work_subdir
    }

    pub fn merged_subdir(&self) -> (r: &String)
        ensures
            r@ == self@.merged_subdir,
    {
        &self.merged_subdir
    }

    pub fn upper_path(&self) -> (r: String)
        ensures
            r@ == self@.upper_path(),
    {
        join_path(self.volume.as_str(), self.upper_subdir.as_str())
    }

    pub fn work_path(&self) -> (r: String)
        ensures
            r@ == self@.work_path(),
    {
        join_path(self.volume.as_str(), self.work_subdir.as_str())
    }

    pub fn merged_path(&self) -> (r: String)
        ensures
            r@ == self@.merged_path(),
    {
        join_path(self.volume.as_str(), self.merged_subdir.as_str())
    }
}

/// A file found under a lower source's directory.
#[derive(Debug)]
pub struct LowerFile {
    /// Its path relative to the lower source's directory.
    pub relative: String,
    /// Whether the same relative path exists under the upper source's
    /// writable directory.
    pub in_upper: bool,
}

/// What was read from disk to decide whether a composition masks files.
#[derive(Debug)]
pub struct LayerScan {
    /// Whether the upper source's writable directory exists.
    pub upper_exists: bool,
    /// The files found under the directories of the lower sources that exist,
    /// each source's files relative to that source's directory.
    pub lower_files: Vec<LowerFile>,
}

/// The full layer composition.
#[derive(Debug)]
pub struct MountConfig {
    /// The lower sources, the first listed taking precedence.
    pub lower_dirs: Vec<LowerDir>,
    pub upper_dir: UpperDir,
    /// Relative paths that may exist both below and in the writable layer.
    pub allowed_masked_files: Vec<String>,
}

impl MountConfig {
    /// `p` may exist both below and in the writable layer.
    pub open spec fn allows(&self, p: Seq<char>) -> bool {
        seq_view(self.allowed_masked_files@).contains(p)
    }

    /// `f` is a lower file that the writable layer hides against the policy.
    pub open spec fn masks(&self, f: LowerFile) -> bool {
        f.in_upper && !self.allows(f.relative@)
    }

    /// The paths, under the writable directory, of the files that hide lower
    /// files against the policy.
    pub open spec fn masked_paths(&self, scan: &LayerScan) -> Set<Seq<char>> {
        Set::new(
            |x: Seq<char>|
                scan.upper_exists && exists|i: int|
                    0 <= i < scan.lower_files@.len() && self.masks(#[trigger] scan.lower_files@[i])
                        && x == join(self.upper_dir@.upper_path(), scan.lower_files@[i].relative@),
        )
    }

    /// What [`MountConfig::validate`] returns on `scan`: the composition
    /// itself when nothing is masked, else each masked path exactly once.
    pub open spec fn validation_outcome(
        self,
        scan: &LayerScan,
        r: Result<ValidatedMountConfig, ConfigError>,
    ) -> bool {
        match r {
            Ok(v) => self.masked_paths(scan).is_empty() && v.config() == self,
            Err(e) => e matches ConfigError::ValidationError(ValidationError::MaskedFiles(l)) && seq_view(
                l@,
            ).no_duplicates() && seq_view(l@).to_set() == self.masked_paths(scan) && !self.masked_paths(
                scan,
            ).is_empty(),
        }
    }

    /// The directories of the upper source that must exist before mounting:
    /// writable, scratch and mount point, in that order.
    pub fn directories(&self) -> (r: Vec<String>)
        ensures
            seq_view(r@) == seq![
                self.upper_dir@.upper_path(),
                self.upper_dir@.work_path(),
                self.upper_dir@.merged_path(),
            ],
    {
        let r = vec![self.upper_dir.upper_path(), self.upper_dir.work_path(), self.upper_dir.merged_path()];
        assert(seq_view(r@) =~= seq![
            self.upper_dir@.upper_path(),
            self.upper_dir@.work_path(),
            self.upper_dir@.merged_path(),
        ]);
        r
    }

    /// Whether the allow-list holds `p`.
    pub fn is_allowed(&self, p: &String) -> (r: bool)
        ensures
            r == self.allows(p@),
    {
        contains_path(&self.allowed_masked_files, p)
    }

    /// The files of the writable layer that hide lower files against the
    /// policy, each once.
    pub fn find_masked_files(&self, scan: &LayerScan) -> (r: Vec<String>)
        ensures
            seq_view(r@).no_duplicates(),
            seq_view(r@).to_set() == self.masked_paths(scan),
    {
        let mut masked: Vec<String> = Vec::new();
        if !scan.upper_exists {
            assert(seq_view(masked@).to_set() =~= self.masked_paths(scan));
            return masked;
        }
        let upper_path = self.upper_dir.upper_path();
        let mut i: usize = 0;
        while i < scan.lower_files.len()
            invariant
                i <= scan.lower_files@.len(),
                scan.upper_exists,
                upper_path@ == self.upper_dir@.upper_path(),
                seq_view(masked@).no_duplicates(),
                forall|x: Seq<char>|
                    seq_view(masked@).contains(x) <==> exists|j: int|
                        0 <= j < i && self.masks(#[trigger] scan.lower_files@[j]) && x == join(
                            upper_path@,
                            scan.lower_files@[j].relative@,
                        ),
            decreases scan.lower_files@.len() - i,
        {
            let ghost before = seq_view(masked@);
            let file = &scan.lower_files[i];
            if file.in_upper && !self.is_allowed(&file.relative) {
                let candidate = join_path(upper_path.as_str(), file.relative.as_str());
                if !contains_path(&masked, &candidate) {
                    masked.push(candidate);
                    assert(seq_view(masked@) =~= before.push(candidate@));
                    assert(seq_view(masked@)[before.len() as int] == candidate@);
                }
                assert(seq_view(masked@).contains(candidate@));
                assert forall|x: Seq<char>| seq_view(masked@).contains(x) <==> (before.contains(x) || x
                    == candidate@) by {
                    if seq_view(masked@).contains(x) && !before.contains(x) {
                        let k = choose|k: int| 0 <= k < seq_view(masked@).len() && seq_view(masked@)[k] == x;
                        assert(k == before.len());
                    }
                    if before.contains(x) {
                        let k = choose|k: int| 0 <= k < before.len() && before[k] == x;
                        assert(seq_view(masked@)[k] == x);
                    }
                }
            }
            assert forall|x: Seq<char>|
                seq_view(masked@).contains(x) implies exists|j: int|
                    0 <= j < i + 1 && self.masks(#[trigger] scan.lower_files@[j]) && x == join(
                        upper_path@,
                        scan.lower_files@[j].relative@,
                    ) by {
                if before.contains(x) {
                } else {
                    assert(self.masks(scan.lower_files@[i as int]));
                }
            }
            assert forall|x: Seq<char>|
                (exists|j: int|
                    0 <= j < i + 1 && self.masks(#[trigger] scan.lower_files@[j]) && x == join(
                        upper_path@,
                        scan.lower_files@[j].relative@,
                    )) implies seq_view(masked@).contains(x) by {
                let j = choose|j: int|
                    0 <= j < i + 1 && self.masks(#[trigger] scan.lower_files@[j]) && x == join(
                        upper_path@,
                        scan.lower_files@[j].relative@,
                    );
                if j < i {
                    assert(before.contains(x));
                }
            }
            i += 1;
        }
        assert(seq_view(masked@).to_set() =~= self.masked_paths(scan));
        masked
    }

    /// Accepts the composition when no file of the writable layer hides a
    /// lower file against the policy; `scan` is what was read from disk.
    pub fn validate(self, scan: &LayerScan) -> (r: Result<ValidatedMountConfig, ConfigError>)
        ensures
            self.validation_outcome(scan, r),
    {
        let masked = self.find_masked_files(scan);
        if masked.len() == 0 {
            assert(seq_view(masked@).to_set() =~= Set::empty());
            Ok(ValidatedMountConfig(self))
        } else {
            assert(seq_view(masked@).to_set().contains(seq_view(masked@)[0]));
            Err(ConfigError::ValidationError(ValidationError::MaskedFiles(masked)))
        }
    }
}

/// A lower file that the writable layer holds too, and that the allow-list
/// does not name, makes validation fail; the list of masked files then holds
/// its path under the writable directory exactly once.
pub proof fn masked_file_reported_once(
    config: MountConfig,
    scan: LayerScan,
    p: Seq<char>,
    r: Result<ValidatedMountConfig, ConfigError>,
)
    requires
        config.validation_outcome(&scan, r),
        scan.upper_exists,
        exists|i: int|
            0 <= i < scan.lower_files@.len() && (#[trigger] scan.lower_files@[i]).relative@ == p
                && scan.lower_files@[i].in_upper,
        !config.allows(p),
    ensures
        r matches Err(ConfigError::ValidationError(ValidationError::MaskedFiles(l))) && seq_view(
            l@,
        ).contains(join(config.upper_dir@.upper_path(), p)) && seq_view(l@).no_duplicates(),
{
    let i = choose|i: int|
        0 <= i < scan.lower_files@.len() && (#[trigger] scan.lower_files@[i]).relative@ == p
            && scan.lower_files@[i].in_upper;
    assert(config.masks(scan.lower_files@[i]));
    let target = join(config.upper_dir@.upper_path(), p);
    assert(config.masked_paths(&scan).contains(target));
    if let Err(ConfigError::ValidationError(ValidationError::MaskedFiles(l))) = r {
        assert(seq_view(l@).to_set().contains(target));
    }
}

/// A file found under two lower sources, and held by the writable layer
/// against the policy, is reported once, not once for each source.
pub proof fn masked_file_shared_by_sources_reported_once(
    config: MountConfig,
    scan: LayerScan,
    i: int,
    j: int,
    r: Result<ValidatedMountConfig, ConfigError>,
)
    requires
        config.validation_outcome(&scan, r),
        scan.upper_exists,
        0 <= i < scan.lower_files@.len(),
        0 <= j < scan.lower_files@.len(),
        i != j,
        scan.lower_files@[i].relative@ == scan.lower_files@[j].relative@,
        scan.lower_files@[i].in_upper,
        !config.allows(scan.lower_files@[i].relative@),
    ensures
        r matches Err(ConfigError::ValidationError(ValidationError::MaskedFiles(l))) && seq_view(
            l@,
        ).contains(join(config.upper_dir@.upper_path(), scan.lower_files@[i].relative@)) && seq_view(
            l@,
        ).no_duplicates(),
{
    masked_file_reported_once(config, scan, scan.lower_files@[i].relative@, r);
}

/// Validation succeeds when every lower file that the writable layer holds
/// too is named by the allow-list.
pub proof fn allow_listed_files_pass(
    config: MountConfig,
    scan: LayerScan,
    r: Result<ValidatedMountConfig, ConfigError>,
)
    requires
        config.validation_outcome(&scan, r),
        forall|i: int|
            0 <= i < scan.lower_files@.len() && (#[trigger] scan.lower_files@[i]).in_upper
                ==> config.allows(scan.lower_files@[i].relative@),
    ensures
        r matches Ok(v) && v.config() == config,
{
    assert(config.masked_paths(&scan) =~= Set::empty());
}

/// Validation succeeds, whatever the lower sources hold, when the writable
/// directory does not exist.
pub proof fn absent_upper_passes(
    config: MountConfig,
    scan: LayerScan,
    r: Result<ValidatedMountConfig, ConfigError>,
)
    requires
        config.validation_outcome(&scan, r),
        !scan.upper_exists,
    ensures
        r matches Ok(v) && v.config() == config,
{
    assert(config.masked_paths(&scan) =~= Set::empty());
}

/// A composition that passed validation. Only [`MountConfig::validate`]
/// makes one.
#[derive(Debug)]
pub struct ValidatedMountConfig(MountConfig);

impl ValidatedMountConfig {
    /// The composition that passed validation.
    pub closed spec fn config(self) -> MountConfig {
        self.0
    }

    /// The composition that passed validation.
    pub fn as_config(&self) -> (r: &MountConfig)
        ensures
            *r == self.config(),
    {
        &self.0
    }

    /// The composition that passed validation.
    pub fn into_config(self) -> (r: MountConfig)
        ensures
            r == self.config(),
    {
        self.0
    }
}

impl From<ValidatedMountConfig> for MountConfig {
    fn from(config: ValidatedMountConfig) -> (r: MountConfig) {
        config.0
    }
}

impl vstd::std_specs::convert::FromSpecImpl<ValidatedMountConfig> for MountConfig {
    open spec fn obeys_from_spec() -> bool {
        true
    }

    open spec fn from_spec(config: ValidatedMountConfig) -> MountConfig {
        config.config()
    }
}

} // verus!
