//! Mirroring of lower sources: which sources are mirrored, how one mirror is
//! invoked, and how the outcome of each mirror is classified.
use vstd::prelude::*;

use crate::config::{IOErrorAtPath, LowerDir, LowerDirView, MountConfig, ValidatedMountConfig};
use crate::paths::{opt_view, seq_view};

verus! {

/// How a lower source is kept in step with its origin.
#[derive(Debug)]
pub enum SyncMode {
    /// The source is mounted from where it lies.
    NoSync,
    /// The source is mirrored once, at setup, and mounted from the destination.
    Once(String),
    /// The source is mirrored at setup and again on every refresh.
    Constant(String),
}

/// The mathematical model of a [`SyncMode`].
pub enum SyncModeView {
    NoSync,
    Once(Seq<char>),
    Constant(Seq<char>),
}

impl View for SyncMode {
    type V = SyncModeView;

    open spec fn view(&self) -> SyncModeView {
        match self {
            SyncMode::NoSync => SyncModeView::NoSync,
            SyncMode::Once(d) => SyncModeView::Once(d@),
            SyncMode::Constant(d) => SyncModeView::Constant(d@),
        }
    }
}

impl Clone for SyncMode {
    fn clone(&self) -> (r: Self)
        ensures
            r == *self,
    {
        match self {
            SyncMode::NoSync => SyncMode::NoSync,
            SyncMode::Once(d) => SyncMode::Once(d.clone()),
            SyncMode::Constant(d) => SyncMode::Constant(d.clone()),
        }
    }
}

impl Default for SyncMode {
    fn default() -> (r: Self)
        ensures
            r is NoSync,
    {
        SyncMode::NoSync
    }
}

/// How one mirror attempt went.
#[derive(Debug)]
pub enum SyncResult<E> {
    /// The mirror succeeded.
    Success,
    /// The mirror failed, but its last success is recent enough to keep serving.
    Transient(E),
    /// The mirror failed and its content is too stale to trust.
    Fatal(E),
}

/// Why a mirror failed.
#[derive(Debug)]
pub enum SyncError {
    /// The mirror tool exited with a failure code and this error text.
    RsyncFailed { code: i32, stderr: String },
    /// The mirror tool could not be launched.
    CommandError(std::io::Error),
    /// The destination's parent directory could not be created.
    DirCreateError(IOErrorAtPath),
}

impl SyncError {
    /// The error of a mirror tool that exited unsuccessfully: its exit code,
    /// `-1` when it was ended by a signal, and its error text.
    pub fn tool_failed(code: Option<i32>, stderr: String) -> (r: SyncError)
        ensures
            r matches SyncError::RsyncFailed { code: c, stderr: t } && t == stderr && c == match code {
                Some(n) => n,
                None => -1i32,
            },
    {
        let code = match code {
            Some(n) => n,
            None => -1,
        };
        SyncError::RsyncFailed { code, stderr }
    }
}

/// The parent directory of a path, as `std::path::Path::parent` gives it.
pub uninterp spec fn parent_of(p: Seq<char>) -> Option<Seq<char>>;

/// Relies on `std::path::Path::parent`: the path without its last
/// component, or nothing for a root or empty path. It depends on the path
/// alone.
#[verifier::external_body]
fn parent_dir(p: &str) -> (r: Option<String>)
    ensures
        opt_view(r) == parent_of(p@),
{
    match std::path::Path::new(p).parent() {
        Some(d) => Some(d.to_string_lossy().into_owned()),
        None => None,
    }
}

/// One run of the mirror tool: it copies the contents of `source` into
/// `destination` and removes from `destination` what `source` lacks.
#[derive(Debug)]
pub struct MirrorJob {
    /// The directory mirrored.
    pub source: String,
    /// The directory mirrored into.
    pub destination: String,
    /// The directory to create, with its parents, before the tool runs.
    pub create_dir: Option<String>,
    /// The tool's arguments.
    pub args: Vec<String>,
}

/// `job` mirrors the lower source `d` into the directory it is mounted from.
pub open spec fn mirrors(job: MirrorJob, d: LowerDirView) -> bool {
    &&& job.source@ == d.full_path()
    &&& job.destination@ == d.mount_path()
    &&& opt_view(job.create_dir) == parent_of(d.mount_path())
    &&& seq_view(job.args@) == seq!["-av"@, "--delete"@, d.full_path() + "/"@, d.mount_path()]
}

/// The name of the mirror tool.
pub fn mirror_program() -> (r: String)
    ensures
        r@ == "rsync"@,
{
    String::from_str("rsync")
}

/// The run of the mirror tool that brings `target` up to date. The source
/// is given with a trailing separator, so that its contents, not the
/// directory itself, land in the destination.
pub fn mirror_job(target: &LowerDir) -> (r: MirrorJob)
    ensures
        mirrors(r, target@),
{
    let source = target.full_path();
    let destination = target.mount_path();
    let create_dir = parent_dir(destination.as_str());
    let contents = source.clone().concat("/");
    let args = vec![
        String::from_str("-av"),
        String::from_str("--delete"),
        contents,
        destination.clone(),
    ];
    assert(seq_view(args@) =~= seq!["-av"@, "--delete"@, target@.full_path() + "/"@, target@.mount_path()]);
    MirrorJob { source, destination, create_dir, args }
}

/// The outcome of one run of the mirror tool, and when it ended, in
/// nanoseconds on a monotonic clock.
#[derive(Debug)]
pub struct MirrorOutcome {
    pub result: Result<(), SyncError>,
    pub finished_at: u64,
}

/// The time from `from` to `to`; none when `to` is earlier.
pub open spec fn elapsed(from: u64, to: u64) -> u64 {
    if to >= from {
        (to - from) as u64
    } else {
        0
    }
}

/// The mathematical model of a [`DirSyncer`].
pub struct DirSyncerView {
    pub target: LowerDirView,
    /// When the last mirror succeeded, in nanoseconds on a monotonic clock.
    pub last_successful_sync: u64,
}

/// What a refresh reports for a mirror whose last success is `s`, given
/// the outcome `o` of the run just made and the staleness budget `max_age`.
pub open spec fn classify(s: DirSyncerView, max_age: u64, o: MirrorOutcome) -> SyncResult<SyncError> {
    match o.result {
        Ok(_) => SyncResult::Success,
        Err(e) => if elapsed(s.last_successful_sync, o.finished_at) <= max_age {
            SyncResult::Transient(e)
        } else {
            SyncResult::Fatal(e)
        },
    }
}

/// The state of a mirror after a refresh whose outcome is `o`: a success
/// moves the time of the last success, a failure leaves it.
pub open spec fn refreshed(s: DirSyncerView, o: MirrorOutcome) -> DirSyncerView {
    match o.result {
        Ok(_) => DirSyncerView { target: s.target, last_successful_sync: o.finished_at },
        Err(_) => s,
    }
}

/// One lower source that is mirrored, and when its mirror last succeeded.
#[derive(Debug)]
pub struct DirSyncer {
    target: LowerDir,
    last_successful_sync: u64,
}

impl View for DirSyncer {
    type V = DirSyncerView;

    closed spec fn view(&self) -> DirSyncerView {
        DirSyncerView { target: self.target@, last_successful_sync: self.last_successful_sync }
    }
}

impl Clone for DirSyncer {
    fn clone(&self) -> (r: Self)
        ensures
            r@ == self@,
    {
        DirSyncer { target: self.target.clone(), last_successful_sync: self.last_successful_sync }
    }
}

impl DirSyncer {
    /// The mirror of `target`, given the outcome of its first run: it exists
    /// only when that run succeeded.
    pub fn new(target: &LowerDir, first: MirrorOutcome) -> (r: Result<Self, SyncError>)
        ensures
            match first.result {
                Ok(_) => r matches Ok(s) && s@ == (DirSyncerView {
                    target: target@,
                    last_successful_sync: first.finished_at,
                }),
                Err(e) => r == Err::<Self, SyncError>(e),
            },
    {
        match first.result {
            Ok(()) => Ok(DirSyncer { target: target.clone(), last_successful_sync: first.finished_at }),
            Err(e) => Err(e),
        }
    }

    /// The run of the mirror tool that refreshes this mirror.
    pub fn job(&self) -> (r: MirrorJob)
        ensures
            mirrors(r, self@.target),
    {
        mirror_job(&self.target)
    }

    /// Takes the outcome of a refresh run: a success resets the time of the
    /// last success; a failure is transient while that time lies at most
    /// `max_age` in the past, and fatal after.
    pub fn try_sync(&mut self, max_age: u64, outcome: MirrorOutcome) -> (r: SyncResult<SyncError>)
        ensures
            final(self)@ == refreshed(old(self)@, outcome),
            r == classify(old(self)@, max_age, outcome),
    {
        match outcome.result {
            Ok(()) => {
                self.last_successful_sync = outcome.finished_at;
                SyncResult::Success
            },
            Err(e) => {
                let age = if outcome.finished_at >= self.last_successful_sync {
                    outcome.finished_at - self.last_successful_sync
                } else {
                    0
                };
                if age <= max_age {
                    SyncResult::Transient(e)
                } else {
                    SyncResult::Fatal(e)
                }
            },
        }
    }
}

/// `e`, a lower source with its position in the composition, is mirrored.
pub open spec fn is_mirrored(e: (int, LowerDirView)) -> bool {
    !(e.1.sync_mode is NoSync)
}

/// The mirrored sources among the first `n` lower sources of `config`, each
/// with its position, in configured order.
pub open spec fn plan_upto(config: MountConfig, n: int) -> Seq<(int, LowerDirView)> {
    Seq::new(n as nat, |i: int| (i, config.lower_dirs@[i]@)).filter(
        |e: (int, LowerDirView)| is_mirrored(e),
    )
}

/// The lower sources that setup mirrors, each once, in configured order.
pub open spec fn mirror_plan(config: MountConfig) -> Seq<(int, LowerDirView)> {
    plan_upto(config, config.lower_dirs@.len() as int)
}

/// `s` is a mirror that refresh calls keep running.
pub open spec fn is_kept(s: DirSyncerView) -> bool {
    s.target.sync_mode is Constant
}

/// The mirrors that setup keeps, from the first `n` entries of `plan` and
/// the outcomes of their first runs: the continuously mirrored ones.
pub open spec fn kept_syncers(
    plan: Seq<(int, LowerDirView)>,
    outcomes: Seq<MirrorOutcome>,
    n: int,
) -> Seq<DirSyncerView> {
    Seq::new(
        n as nat,
        |k: int| DirSyncerView { target: plan[k].1, last_successful_sync: outcomes[k].finished_at },
    ).filter(|s: DirSyncerView| is_kept(s))
}

/// `outcomes` reports on every run of `plan` up to the first failure.
pub open spec fn reports_plan(plan: Seq<(int, LowerDirView)>, outcomes: Seq<MirrorOutcome>) -> bool {
    &&& outcomes.len() <= plan.len()
    &&& outcomes.len() == plan.len() || exists|k: int|
        0 <= k < outcomes.len() && (#[trigger] outcomes[k]).result is Err
}

/// What [`SyncManager::new`] returns on `config` and the outcomes of the
/// setup runs: the first failure with the failing source's path, else a
/// manager of the continuously mirrored sources and the composition to mount.
pub open spec fn setup_outcome(
    config: MountConfig,
    outcomes: Seq<MirrorOutcome>,
    r: Result<(SyncManager, SyncedConfig), (String, SyncError)>,
) -> bool {
    let plan = mirror_plan(config);
    match r {
        Ok((m, synced)) => {
            &&& forall|k: int| 0 <= k < outcomes.len() ==> (#[trigger] outcomes[k]).result is Ok
            &&& m@ == kept_syncers(plan, outcomes, plan.len() as int)
            &&& synced.config() == config
        },
        Err((p, e)) => exists|k: int|
            0 <= k < outcomes.len() && (#[trigger] outcomes[k]).result == Err::<(), SyncError>(e)
                && (forall|j: int| 0 <= j < k ==> (#[trigger] outcomes[j]).result is Ok) && p@
                == plan[k].1.full_path(),
    }
}

/// The plan over one more lower source grows by that source when it is
/// mirrored.
proof fn lemma_plan_step(config: MountConfig, i: int)
    requires
        0 <= i < config.lower_dirs@.len(),
    ensures
        plan_upto(config, i + 1) == if is_mirrored((i, config.lower_dirs@[i]@)) {
            plan_upto(config, i).push((i, config.lower_dirs@[i]@))
        } else {
            plan_upto(config, i)
        },
{
    let entries = Seq::new((i + 1) as nat, |j: int| (j, config.lower_dirs@[j]@));
    assert(entries.drop_last() =~= Seq::new(i as nat, |j: int| (j, config.lower_dirs@[j]@)));
    reveal(Seq::filter);
}

/// The kept mirrors over one more setup run grow by that run's mirror when
/// it is continuous.
proof fn lemma_kept_step(plan: Seq<(int, LowerDirView)>, outcomes: Seq<MirrorOutcome>, k: int)
    requires
        0 <= k,
    ensures
        ({
            let s = DirSyncerView { target: plan[k].1, last_successful_sync: outcomes[k].finished_at };
            kept_syncers(plan, outcomes, k + 1) == if is_kept(s) {
                kept_syncers(plan, outcomes, k).push(s)
            } else {
                kept_syncers(plan, outcomes, k)
            }
        }),
{
    let f = |j: int| DirSyncerView { target: plan[j].1, last_successful_sync: outcomes[j].finished_at };
    assert(Seq::new((k + 1) as nat, f).drop_last() =~= Seq::new(k as nat, f));
    reveal(Seq::filter);
}

/// A failed setup run, after successful ones, is the outcome that setup
/// reports.
proof fn lemma_setup_failure(
    config: MountConfig,
    outcomes: Seq<MirrorOutcome>,
    k: int,
    r: Result<(SyncManager, SyncedConfig), (String, SyncError)>,
)
    requires
        0 <= k < outcomes.len(),
        r matches Err((p, e)) && outcomes[k].result == Err::<(), SyncError>(e) && p@ == mirror_plan(
            config,
        )[k].1.full_path(),
        forall|j: int| 0 <= j < k ==> (#[trigger] outcomes[j]).result is Ok,
    ensures
        setup_outcome(config, outcomes, r),
{
}

/// The plan holds each lower source at most once, by position.
proof fn lemma_plan_indices(config: MountConfig, n: int)
    requires
        0 <= n <= config.lower_dirs@.len(),
    ensures
        plan_upto(config, n).no_duplicates(),
        forall|k: int|
            0 <= k < plan_upto(config, n).len() ==> 0 <= (#[trigger] plan_upto(config, n)[k]).0 < n,
    decreases n,
{
    if n == 0 {
        reveal(Seq::filter);
    } else {
        lemma_plan_indices(config, n - 1);
        lemma_plan_step(config, n - 1);
        let before = plan_upto(config, n - 1);
        let e = (n - 1, config.lower_dirs@[n - 1]@);
        if is_mirrored(e) {
            assert(!before.contains(e)) by {
                if before.contains(e) {
                    let k = choose|k: int| 0 <= k < before.len() && before[k] == e;
                    assert(before[k].0 < n - 1);
                }
            }
            assert forall|a: int, b: int|
                0 <= a < before.push(e).len() && 0 <= b < before.push(e).len() && a != b implies before.push(
                    e,
                )[a] != before.push(e)[b] by {
                if a < before.len() && b < before.len() {
                    assert(before[a] != before[b]);
                } else if a < before.len() {
                    assert(before.contains(before[a]));
                } else if b < before.len() {
                    assert(before.contains(before[b]));
                }
            }
        }
    }
}

/// The lower source at position `i`, if it is mirrored, stands exactly once
/// in the setup plan.
proof fn lemma_mirrored_once(config: MountConfig, i: int)
    requires
        0 <= i < config.lower_dirs@.len(),
        is_mirrored((i, config.lower_dirs@[i]@)),
    ensures
        mirror_plan(config).contains((i, config.lower_dirs@[i]@)),
        mirror_plan(config).no_duplicates(),
{
    let n = config.lower_dirs@.len() as int;
    lemma_plan_indices(config, n);
    let entries = Seq::new(n as nat, |j: int| (j, config.lower_dirs@[j]@));
    entries.lemma_filter_contains(|e: (int, LowerDirView)| is_mirrored(e), i);
}

/// A source mirrored once is mirrored exactly once at setup, the
/// composition returned mounts it from the mirror's destination, and no
/// mirror that refresh calls keep running is of that source.
pub proof fn once_source_mirrored_at_setup_only(
    config: MountConfig,
    outcomes: Seq<MirrorOutcome>,
    i: int,
    dest: Seq<char>,
    r: Result<(SyncManager, SyncedConfig), (String, SyncError)>,
)
    requires
        setup_outcome(config, outcomes, r),
        0 <= i < config.lower_dirs@.len(),
        config.lower_dirs@[i]@.sync_mode == SyncModeView::Once(dest),
    ensures
        mirror_plan(config).contains((i, config.lower_dirs@[i]@)),
        mirror_plan(config).no_duplicates(),
        r matches Ok((m, synced)) ==> {
            &&& synced.config().lower_dirs@[i]@.mount_path() == dest
            &&& forall|k: int| 0 <= k < m@.len() ==> (#[trigger] m@[k]).target != config.lower_dirs@[i]@
        },
{
    lemma_mirrored_once(config, i);
    if let Ok((m, synced)) = r {
        let plan = mirror_plan(config);
        let all = Seq::new(
            plan.len(),
            |k: int| DirSyncerView { target: plan[k].1, last_successful_sync: outcomes[k].finished_at },
        );
        assert forall|k: int| 0 <= k < m@.len() implies (#[trigger] m@[k]).target != config.lower_dirs@[i]@ by {
            all.lemma_filter_pred(|s: DirSyncerView| is_kept(s), k);
        }
    }
}

/// A continuously mirrored source is mirrored exactly once at setup, and a
/// mirror of it is kept that every refresh call runs again.
pub proof fn constant_source_mirrored_at_setup_and_refresh(
    config: MountConfig,
    outcomes: Seq<MirrorOutcome>,
    i: int,
    dest: Seq<char>,
    r: Result<(SyncManager, SyncedConfig), (String, SyncError)>,
)
    requires
        setup_outcome(config, outcomes, r),
        0 <= i < config.lower_dirs@.len(),
        config.lower_dirs@[i]@.sync_mode == SyncModeView::Constant(dest),
    ensures
        mirror_plan(config).contains((i, config.lower_dirs@[i]@)),
        mirror_plan(config).no_duplicates(),
        r matches Ok((m, synced)) ==> exists|k: int|
            0 <= k < m@.len() && (#[trigger] m@[k]).target == config.lower_dirs@[i]@ && forall|
                o: MirrorOutcome,
            | #[trigger] refreshed(m@[k], o).target == config.lower_dirs@[i]@,
{
    lemma_mirrored_once(config, i);
    if let Ok((m, synced)) = r {
        let plan = mirror_plan(config);
        let p = choose|p: int| 0 <= p < plan.len() && plan[p] == (i, config.lower_dirs@[i]@);
        let all = Seq::new(
            plan.len(),
            |k: int| DirSyncerView { target: plan[k].1, last_successful_sync: outcomes[k].finished_at },
        );
        all.lemma_filter_contains(|s: DirSyncerView| is_kept(s), p);
        let k = choose|k: int| 0 <= k < m@.len() && m@[k] == all[p];
        assert(m@[k].target == config.lower_dirs@[i]@);
    }
}

/// A failed refresh of a mirror is transient while its last success lies at
/// most `max_age` in the past, and fatal once it lies further back.
pub proof fn failed_refresh_by_age(s: DirSyncerView, max_age: u64, o: MirrorOutcome)
    requires
        o.result is Err,
    ensures
        elapsed(s.last_successful_sync, o.finished_at) <= max_age ==> classify(s, max_age, o) is Transient,
        elapsed(s.last_successful_sync, o.finished_at) > max_age ==> classify(s, max_age, o) is Fatal,
{
}

/// A composition whose mirrored sources have been mirrored; each mounts from
/// its mirror's destination. Only [`SyncManager::new`] makes one.
#[derive(Debug)]
pub struct SyncedConfig(MountConfig);

impl SyncedConfig {
    /// The composition to mount.
    pub closed spec fn config(self) -> MountConfig {
        self.0
    }

    /// The composition to mount.
    pub fn as_config(&self) -> (r: &MountConfig)
        ensures
            *r == self.config(),
    {
        &self.0
    }

    /// The composition to mount.
    pub fn into_config(self) -> (r: MountConfig)
        ensures
            r == self.config(),
    {
        self.0
    }
}

impl From<SyncedConfig> for MountConfig {
    fn from(config: SyncedConfig) -> (r: MountConfig) {
        config.0
    }
}

impl vstd::std_specs::convert::FromSpecImpl<SyncedConfig> for MountConfig {
    open spec fn obeys_from_spec() -> bool {
        true
    }

    open spec fn from_spec(config: SyncedConfig) -> MountConfig {
        config.config()
    }
}

/// The mirrors that refresh calls keep up to date.
#[derive(Debug)]
pub struct SyncManager {
    targets: Vec<DirSyncer>,
}

impl View for SyncManager {
    type V = Seq<DirSyncerView>;

    closed spec fn view(&self) -> Seq<DirSyncerView> {
        self.targets@.map_values(|t: DirSyncer| t@)
    }
}

impl SyncManager {
    /// The lower sources of `config` that setup mirrors, in configured order.
    pub fn mirrored_sources(config: &MountConfig) -> (r: Vec<LowerDir>)
        ensures
            r@.len() == mirror_plan(*config).len(),
            forall|k: int| 0 <= k < r@.len() ==> (#[trigger] r@[k])@ == mirror_plan(*config)[k].1,
    {
        let mut r: Vec<LowerDir> = Vec::new();
        let mut i: usize = 0;
        while i < config.lower_dirs.len()
            invariant
                i <= config.lower_dirs@.len(),
                r@.len() == plan_upto(*config, i as int).len(),
                forall|k: int| 0 <= k < r@.len() ==> (#[trigger] r@[k])@ == plan_upto(*config, i as int)[k].1,
            decreases config.lower_dirs@.len() - i,
        {
            let ghost before = plan_upto(*config, i as int);
            proof {
                lemma_plan_step(*config, i as int);
            }
            let dir = &config.lower_dirs[i];
            if !matches!(dir.sync_mode(), SyncMode::NoSync) {
                assert(plan_upto(*config, i + 1) == before.push((i as int, dir@)));
                r.push(dir.clone());
            } else {
                assert(plan_upto(*config, i + 1) == before);
            }
            i += 1;
        }
        r
    }

    /// The runs of the mirror tool that setup makes, in order.
    pub fn initial_jobs(config: &ValidatedMountConfig) -> (r: Vec<MirrorJob>)
        ensures
            r@.len() == mirror_plan(config.config()).len(),
            forall|k: int| 0 <= k < r@.len() ==> mirrors(#[trigger] r@[k], mirror_plan(config.config())[k].1),
    {
        let sources = Self::mirrored_sources(config.as_config());
        let mut r: Vec<MirrorJob> = Vec::new();
        let mut k: usize = 0;
        while k < sources.len()
            invariant
                k <= sources@.len(),
                r@.len() == k,
                forall|j: int| 0 <= j < k ==> mirrors(#[trigger] r@[j], sources@[j]@),
            decreases sources@.len() - k,
        {
            r.push(mirror_job(&sources[k]));
            k += 1;
        }
        r
    }

    /// Sets up the mirrors of `config` from the outcomes of the setup runs,
    /// which [`SyncManager::initial_jobs`] lists: the first failure aborts
    /// setup and is returned with the failing source's path. Mirrors already
    /// made are left in place. On success the manager keeps the continuously
    /// mirrored sources only.
    pub fn new(config: ValidatedMountConfig, outcomes: Vec<MirrorOutcome>) -> (r: Result<
        (Self, SyncedConfig),
        (String, SyncError),
    >)
        requires
            reports_plan(mirror_plan(config.config()), outcomes@),
        ensures
            setup_outcome(config.config(), outcomes@, r),
    {
        let ghost plan = mirror_plan(config.config());
        let sources = Self::mirrored_sources(config.as_config());
        let mut pending = outcomes;
        let mut targets: Vec<DirSyncer> = Vec::new();
        let mut k: usize = 0;
        while k < sources.len()
            invariant
                plan == mirror_plan(config.config()),
                sources@.len() == plan.len(),
                forall|j: int| 0 <= j < sources@.len() ==> (#[trigger] sources@[j])@ == plan[j].1,
                reports_plan(plan, outcomes@),
                k <= sources@.len(),
                k <= outcomes@.len(),
                pending@ == outcomes@.skip(k as int),
                forall|j: int| 0 <= j < k ==> (#[trigger] outcomes@[j]).result is Ok,
                targets@.map_values(|t: DirSyncer| t@) == kept_syncers(plan, outcomes@, k as int),
            decreases sources@.len() - k,
        {
            if pending.len() == 0 {
                proof {
                    assert(outcomes@.len() == k);
                    let f = choose|f: int| 0 <= f < outcomes@.len() && (#[trigger] outcomes@[f]).result is Err;
                    assert(outcomes@[f].result is Ok);
                }
            }
            assert(pending@[0] == outcomes@[k as int]);
            let outcome = pending.remove(0);
            let ghost done = outcome;
            let ghost before = targets@.map_values(|t: DirSyncer| t@);
            proof {
                assert(pending@ =~= outcomes@.skip(k + 1));
                lemma_kept_step(plan, outcomes@, k as int);
            }
            let syncer = match DirSyncer::new(&sources[k], outcome) {
                Ok(s) => s,
                Err(e) => {
                    let path = sources[k].full_path();
                    let r = Err((path, e));
                    proof {
                        lemma_setup_failure(config.config(), outcomes@, k as int, r);
                    }
                    return r;
                },
            };
            if matches!(sources[k].sync_mode(), SyncMode::Constant(_)) {
                targets.push(syncer);
                assert(targets@.map_values(|t: DirSyncer| t@) =~= before.push(syncer@));
            }
            k += 1;
        }
        Ok((SyncManager { targets }, SyncedConfig(config.into_config())))
    }

    /// How many mirrors refresh calls keep up to date.
    pub fn target_count(&self) -> (r: usize)
        ensures
            r == self@.len(),
    {
        self.targets.len()
    }

    /// The runs of the mirror tool that a refresh makes, one for each kept
    /// mirror, in order.
    pub fn refresh_jobs(&self) -> (r: Vec<MirrorJob>)
        ensures
            r@.len() == self@.len(),
            forall|k: int| 0 <= k < r@.len() ==> mirrors(#[trigger] r@[k], self@[k].target),
    {
        let mut r: Vec<MirrorJob> = Vec::new();
        let mut k: usize = 0;
        while k < self.targets.len()
            invariant
                k <= self.targets@.len(),
                r@.len() == k,
                forall|j: int| 0 <= j < k ==> mirrors(#[trigger] r@[j], self@[j].target),
            decreases self.targets@.len() - k,
        {
            r.push(self.targets[k].job());
            k += 1;
        }
        r
    }

    /// Takes the outcomes of the runs that [`SyncManager::refresh_jobs`]
    /// lists, and reports for each kept mirror, with its source's path,
    /// whether it succeeded, failed within `max_age` nanoseconds of its last
    /// success, or failed later than that.
    pub fn try_sync(&mut self, max_age: u64, outcomes: Vec<MirrorOutcome>) -> (r: Vec<
        (String, SyncResult<SyncError>),
    >)
        requires
            outcomes@.len() == old(self)@.len(),
        ensures
            final(self)@.len() == old(self)@.len(),
            forall|k: int|
                0 <= k < old(self)@.len() ==> #[trigger] final(self)@[k] == refreshed(
                    old(self)@[k],
                    outcomes@[k],
                ),
            r@.len() == old(self)@.len(),
            forall|k: int|
                0 <= k < old(self)@.len() ==> (#[trigger] r@[k]).0@ == old(self)@[k].target.full_path()
                    && r@[k].1 == classify(old(self)@[k], max_age, outcomes@[k]),
    {
        let ghost start = self@;
        let mut pending = outcomes;
        let mut results: Vec<(String, SyncResult<SyncError>)> = Vec::new();
        let mut k: usize = 0;
        while k < self.targets.len()
            invariant
                start.len() == outcomes@.len(),
                self@.len() == start.len(),
                k <= start.len(),
                pending@ == outcomes@.skip(k as int),
                forall|j: int| 0 <= j < k ==> #[trigger] self@[j] == refreshed(start[j], outcomes@[j]),
                forall|j: int| k <= j < start.len() ==> #[trigger] self@[j] == start[j],
                results@.len() == k,
                forall|j: int|
                    0 <= j < k ==> (#[trigger] results@[j]).0@ == start[j].target.full_path()
                        && results@[j].1 == classify(start[j], max_age, outcomes@[j]),
            decreases start.len() - k,
        {
            assert(pending@[0] == outcomes@[k as int]);
            let outcome = pending.remove(0);
            proof {
                assert(pending@ =~= outcomes@.skip(k + 1));
            }
            assert(self@[k as int] == self.targets@[k as int]@);
            let mut target = self.targets[k].clone();
            assert(target@ == start[k as int]);
            let path = target.target.full_path();
            let result = target.try_sync(max_age, outcome);
            let ghost before = self.targets@;
            let ghost view_before = self@;
            assert forall|j: int| 0 <= j < start.len() implies #[trigger] view_before[j] == before[j]@ by {
            }
            self.targets.set(k, target);
            assert(self.targets@ == before.update(k as int, target));
            assert forall|j: int| 0 <= j < start.len() implies #[trigger] self@[j] == (if j == k {
                target@
            } else {
                before[j]@
            }) by {
                assert(self@[j] == self.targets@[j]@);
            }
            assert forall|j: int| 0 <= j < k + 1 implies #[trigger] self@[j] == refreshed(
                start[j],
                outcomes@[j],
            ) by {
                if j < k {
                    assert(view_before[j] == refreshed(start[j], outcomes@[j]));
                }
            }
            assert forall|j: int| k + 1 <= j < start.len() implies #[trigger] self@[j] == start[j] by {
                assert(view_before[j] == start[j]);
            }
            results.push((path, result));
            k += 1;
        }
        results
    }
}

} // verus!
