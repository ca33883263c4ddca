//! The install state machine of one version and variant, and the planning of
//! a removal. The caller performs each action and reports what happened; the
//! machine decides what comes next, so that a failed install leaves no
//! partial directory and no record behind.

use crate::error::LifecycleError;
use crate::platform::{executable_in, executable_path_for, join, join_path, Platform};
use crate::state::{removed, InstallMetadata, MetadataModel, PhpState};
use crate::text::{chars_of, decimal, push_str, string_of, sub_chars};
use crate::version::{
    install_dir_name, install_dir_text, install_key, install_key_text, parse_version, render,
    PhpVersion, Variant, VersionModel,
};
use vstd::prelude::*;

verus! {

#[derive(Debug, Clone, Copy, PartialEq, Eq, Structural)]
pub enum InstallStage {
    /// Waiting to learn whether the install directory and its executable exist.
    Probing,
    /// Waiting for a partial install directory to be removed.
    ClearingPartial,
    /// Waiting for the archive.
    Fetching,
    /// Waiting for the archive to be unpacked into the install directory.
    Extracting,
    /// Waiting to learn whether the executable exists after unpacking.
    Verifying,
    /// Waiting for the checksum of the installed tree.
    Hashing,
    /// Waiting for the record to be saved.
    Recording,
    Done,
    Failed,
}

/// What the caller learned by performing the last action.
pub enum InstallEvent {
    Probed { dir_exists: bool, marker_exists: bool },
    PartialCleared { ok: bool },
    /// The local path of the archive, or why it could not be had.
    Fetched(Result<String, LifecycleError>),
    Extracted { ok: bool },
    MarkerProbed { present: bool },
    /// The checksum of the installed tree and the time in seconds since the
    /// Unix epoch.
    Hashed { checksum: Result<String, LifecycleError>, at_secs: u64 },
    Recorded { ok: bool },
}

/// What the caller is to do next.
pub enum InstallAction {
    /// Learn whether `dir` and the executable `marker` exist.
    ProbeDir { dir: String, marker: String },
    /// Remove the partial install directory.
    RemoveDir(String),
    /// Fetch the archive at this URL through the download cache.
    Fetch(String),
    /// Unpack `archive` into `dir`.
    Extract { archive: String, dir: String },
    /// Learn whether the executable exists.
    ProbeMarker(String),
    /// Compute the checksum of the tree below this directory.
    HashTree(String),
    /// Add the record to the state and save it.
    Record { key: String, metadata: InstallMetadata },
    /// The install is complete in this directory.
    Finish(String),
    /// The install failed; nothing was written.
    Fail(LifecycleError),
    /// Remove `dir`, then report `error`.
    CleanupAndFail { dir: String, error: LifecycleError },
    /// The event did not answer the pending action; nothing changed.
    Ignore,
}

pub enum EventModel {
    Probed(bool, bool),
    PartialCleared(bool),
    Fetched(Result<Seq<char>, LifecycleError>),
    Extracted(bool),
    MarkerProbed(bool),
    Hashed(Result<Seq<char>, LifecycleError>, u64),
    Recorded(bool),
}

pub enum ActionModel {
    ProbeDir(Seq<char>, Seq<char>),
    RemoveDir(Seq<char>),
    Fetch(Seq<char>),
    Extract(Seq<char>, Seq<char>),
    ProbeMarker(Seq<char>),
    HashTree(Seq<char>),
    Record(Seq<char>, MetadataModel),
    Finish(Seq<char>),
    Fail(LifecycleError),
    CleanupAndFail(Seq<char>, LifecycleError),
    Ignore,
}

pub open spec fn text_result(r: Result<String, LifecycleError>) -> Result<Seq<char>, LifecycleError> {
    match r {
        Ok(s) => Ok(s@),
        Err(e) => Err(e),
    }
}

impl View for InstallEvent {
    type V = EventModel;

    open spec fn view(&self) -> EventModel {
        match self {
            InstallEvent::Probed { dir_exists, marker_exists } => EventModel::Probed(
                *dir_exists,
                *marker_exists,
            ),
            InstallEvent::PartialCleared { ok } => EventModel::PartialCleared(*ok),
            InstallEvent::Fetched(r) => EventModel::Fetched(text_result(*r)),
            InstallEvent::Extracted { ok } => EventModel::Extracted(*ok),
            InstallEvent::MarkerProbed { present } => EventModel::MarkerProbed(*present),
            InstallEvent::Hashed { checksum, at_secs } => EventModel::Hashed(
                text_result(*checksum),
                *at_secs,
            ),
            InstallEvent::Recorded { ok } => EventModel::Recorded(*ok),
        }
    }
}

impl View for InstallAction {
    type V = ActionModel;

    open spec fn view(&self) -> ActionModel {
        match self {
            InstallAction::ProbeDir { dir, marker } => ActionModel::ProbeDir(dir@, marker@),
            InstallAction::RemoveDir(d) => ActionModel::RemoveDir(d@),
            InstallAction::Fetch(u) => ActionModel::Fetch(u@),
            InstallAction::Extract { archive, dir } => ActionModel::Extract(archive@, dir@),
            InstallAction::ProbeMarker(m) => ActionModel::ProbeMarker(m@),
            InstallAction::HashTree(d) => ActionModel::HashTree(d@),
            InstallAction::Record { key, metadata } => ActionModel::Record(key@, metadata@),
            InstallAction::Finish(d) => ActionModel::Finish(d@),
            InstallAction::Fail(e) => ActionModel::Fail(*e),
            InstallAction::CleanupAndFail { dir, error } => ActionModel::CleanupAndFail(dir@, *error),
            InstallAction::Ignore => ActionModel::Ignore,
        }
    }
}

/// The build toolset in a release archive's name, by version.
pub open spec fn release_toolset(major: u8, minor: u8) -> Seq<char> {
    if major > 8 || (major == 8 && minor >= 4) {
        "vs17"@
    } else if major == 8 {
        "vs16"@
    } else {
        "vc15"@
    }
}

/// The release archive of a version and variant on the official server; the
/// non-thread-safe archive has `-nts` after the version.
pub open spec fn release_url(m: VersionModel, v: Variant) -> Seq<char> {
    "https://windows.php.net/downloads/releases/php-"@ + render(m) + (match v {
        Variant::ThreadSafe => Seq::<char>::empty(),
        Variant::NonThreadSafe => "-nts"@,
    }) + "-Win32-"@ + release_toolset(m.major, m.minor) + "-x64.zip"@
}

fn toolset_of(major: u8, minor: u8) -> (r: &'static str)
    ensures
        r@ == release_toolset(major, minor),
{
    if major > 8 || (major == 8 && minor >= 4) {
        "vs17"
    } else if major == 8 {
        "vs16"
    } else {
        "vc15"
    }
}

/// The official release archive of a version and variant.
pub fn release_archive_url(version: &PhpVersion, variant: Variant) -> (r: String)
    ensures
        r@ == release_url(version@, variant),
{
    let mut r = String::new();
    push_str(&mut r, "https://windows.php.net/downloads/releases/php-");
    let v = version.to_string();
    push_str(&mut r, v.as_str());
    match variant {
        Variant::ThreadSafe => {},
        Variant::NonThreadSafe => push_str(&mut r, "-nts"),
    }
    push_str(&mut r, "-Win32-");
    push_str(&mut r, toolset_of(version.major, version.minor));
    push_str(&mut r, "-x64.zip");
    proof {
        assert(r@ =~= release_url(version@, variant));
    }
    r
}

/// One install in progress: the directory, executable, key and source it
/// was planned with, and how far it has come.
pub struct InstallJob {
    pub stage: InstallStage,
    pub key: String,
    pub dir: String,
    pub marker: String,
    pub url: String,
}

pub struct JobModel {
    pub stage: InstallStage,
    pub key: Seq<char>,
    pub dir: Seq<char>,
    pub marker: Seq<char>,
    pub url: Seq<char>,
}

impl View for InstallJob {
    type V = JobModel;

    open spec fn view(&self) -> JobModel {
        JobModel {
            stage: self.stage,
            key: self.key@,
            dir: self.dir@,
            marker: self.marker@,
            url: self.url@,
        }
    }
}

/// The record of a completed install.
pub open spec fn record_of(j: JobModel, checksum: Seq<char>, at_secs: u64) -> MetadataModel {
    MetadataModel {
        version: j.key,
        install_path: j.dir,
        installed_at: decimal(at_secs as nat),
        checksum: Some(checksum),
        source: j.url,
    }
}

/// What follows when the pending action of `j` reports `e`.
pub open spec fn next(j: JobModel, e: EventModel) -> (InstallStage, ActionModel) {
    match (j.stage, e) {
        (InstallStage::Probing, EventModel::Probed(dir_exists, marker_exists)) => {
            if dir_exists && marker_exists {
                (InstallStage::Failed, ActionModel::Fail(LifecycleError::AlreadyInstalled))
            } else if dir_exists {
                (InstallStage::ClearingPartial, ActionModel::RemoveDir(j.dir))
            } else {
                (InstallStage::Fetching, ActionModel::Fetch(j.url))
            }
        },
        (InstallStage::ClearingPartial, EventModel::PartialCleared(ok)) => {
            if ok {
                (InstallStage::Fetching, ActionModel::Fetch(j.url))
            } else {
                (InstallStage::Failed, ActionModel::Fail(LifecycleError::Io))
            }
        },
        (InstallStage::Fetching, EventModel::Fetched(r)) => match r {
            Ok(archive) => (InstallStage::Extracting, ActionModel::Extract(archive, j.dir)),
            Err(err) => (InstallStage::Failed, ActionModel::Fail(err)),
        },
        (InstallStage::Extracting, EventModel::Extracted(ok)) => {
            if ok {
                (InstallStage::Verifying, ActionModel::ProbeMarker(j.marker))
            } else {
                (
                    InstallStage::Failed,
                    ActionModel::CleanupAndFail(j.dir, LifecycleError::ExtractionIncomplete),
                )
            }
        },
        (InstallStage::Verifying, EventModel::MarkerProbed(present)) => {
            if present {
                (InstallStage::Hashing, ActionModel::HashTree(j.dir))
            } else {
                (
                    InstallStage::Failed,
                    ActionModel::CleanupAndFail(j.dir, LifecycleError::ExtractionIncomplete),
                )
            }
        },
        (InstallStage::Hashing, EventModel::Hashed(r, at_secs)) => match r {
            Ok(c) => (InstallStage::Recording, ActionModel::Record(j.key, record_of(j, c, at_secs))),
            Err(err) => (InstallStage::Failed, ActionModel::CleanupAndFail(j.dir, err)),
        },
        (InstallStage::Recording, EventModel::Recorded(ok)) => {
            if ok {
                (InstallStage::Done, ActionModel::Finish(j.dir))
            } else {
                (InstallStage::Failed, ActionModel::CleanupAndFail(j.dir, LifecycleError::Io))
            }
        },
        _ => (j.stage, ActionModel::Ignore),
    }
}

/// The install of `m` and `v` below `root`, before anything is done.
pub open spec fn planned(
    m: VersionModel,
    v: Variant,
    root: Seq<char>,
    source: Option<Seq<char>>,
    p: Platform,
) -> JobModel {
    let dir = join_path(root, install_dir_text(m, v));
    JobModel {
        stage: InstallStage::Probing,
        key: install_key_text(m, v),
        dir,
        marker: executable_in(p, dir),
        url: match source {
            Some(u) => u,
            None => release_url(m, v),
        },
    }
}

impl InstallJob {
    /// Plans the install of `version` and `variant` below `install_root`,
    /// from `source_url` when one is given and from the official release
    /// archive otherwise, and asks first whether it is already there.
    pub fn start(
        version: &PhpVersion,
        variant: Variant,
        install_root: &str,
        source_url: Option<&str>,
        platform: Platform,
    ) -> (r: (InstallJob, InstallAction))
        ensures
            r.0@ == planned(
                version@,
                variant,
                install_root@,
                match source_url {
                    Some(u) => Some(u@),
                    None => None,
                },
                platform,
            ),
            r.1@ == ActionModel::ProbeDir(r.0@.dir, r.0@.marker),
    {
        let name = install_dir_name(version, variant);
        let dir = join(install_root, name.as_str());
        let marker = executable_path_for(platform, dir.as_str());
        let url = match source_url {
            Some(u) => u.to_owned(),
            None => release_archive_url(version, variant),
        };
        let key = install_key(version, variant);
        let action = InstallAction::ProbeDir { dir: dir.clone(), marker: marker.clone() };
        (InstallJob { stage: InstallStage::Probing, key, dir, marker, url }, action)
    }

    /// Takes in what the pending action found and says what to do next.
    pub fn step(&mut self, event: InstallEvent) -> (a: InstallAction)
        ensures
            final(self)@ == (JobModel { stage: next(old(self)@, event@).0, ..old(self)@ }),
            a@ == next(old(self)@, event@).1,
    {
        match (self.stage, event) {
            (InstallStage::Probing, InstallEvent::Probed { dir_exists, marker_exists }) => {
                if dir_exists && marker_exists {
                    self.stage = InstallStage::Failed;
                    InstallAction::Fail(LifecycleError::AlreadyInstalled)
                } else if dir_exists {
                    self.stage = InstallStage::ClearingPartial;
                    InstallAction::RemoveDir(self.dir.clone())
                } else {
                    self.stage = InstallStage::Fetching;
                    InstallAction::Fetch(self.url.clone())
                }
            },
            (InstallStage::ClearingPartial, InstallEvent::PartialCleared { ok }) => {
                if ok {
                    self.stage = InstallStage::Fetching;
                    InstallAction::Fetch(self.url.clone())
                } else {
                    self.stage = InstallStage::Failed;
                    InstallAction::Fail(LifecycleError::Io)
                }
            },
            (InstallStage::Fetching, InstallEvent::Fetched(r)) => match r {
                Ok(archive) => {
                    self.stage = InstallStage::Extracting;
                    InstallAction::Extract { archive, dir: self.dir.clone() }
                },
                Err(e) => {
                    self.stage = InstallStage::Failed;
                    InstallAction::Fail(e)
                },
            },
            (InstallStage::Extracting, InstallEvent::Extracted { ok }) => {
                if ok {
                    self.stage = InstallStage::Verifying;
                    InstallAction::ProbeMarker(self.marker.clone())
                } else {
                    self.stage = InstallStage::Failed;
                    InstallAction::CleanupAndFail {
                        dir: self.dir.clone(),
                        error: LifecycleError::ExtractionIncomplete,
                    }
                }
            },
            (InstallStage::Verifying, InstallEvent::MarkerProbed { present }) => {
                if present {
                    self.stage = InstallStage::Hashing;
                    InstallAction::HashTree(self.dir.clone())
                } else {
                    self.stage = InstallStage::Failed;
                    InstallAction::CleanupAndFail {
                        dir: self.dir.clone(),
                        error: LifecycleError::ExtractionIncomplete,
                    }
                }
            },
            (InstallStage::Hashing, InstallEvent::Hashed { checksum, at_secs }) => match checksum {
                Ok(c) => {
                    self.stage = InstallStage::Recording;
                    let installed_at = crate::text::format_timestamp(at_secs);
                    let metadata = InstallMetadata {
                        version: self.key.clone(),
                        install_path: self.dir.clone(),
                        installed_at,
                        checksum: Some(c),
                        source: self.url.clone(),
                    };
                    InstallAction::Record { key: self.key.clone(), metadata }
                },
                Err(e) => {
                    self.stage = InstallStage::Failed;
                    InstallAction::CleanupAndFail { dir: self.dir.clone(), error: e }
                },
            },
            (InstallStage::Recording, InstallEvent::Recorded { ok }) => {
                if ok {
                    self.stage = InstallStage::Done;
                    InstallAction::Finish(self.dir.clone())
                } else {
                    self.stage = InstallStage::Failed;
                    InstallAction::CleanupAndFail { dir: self.dir.clone(), error: LifecycleError::Io }
                }
            },
            _ => InstallAction::Ignore,
        }
    }
}


/// Once unpacking has begun, every failure removes the install directory
/// before it is reported: no partial install survives a failed call.
pub proof fn lemma_failure_after_unpacking_cleans_up(j: JobModel, e: EventModel)
    requires
        j.stage == InstallStage::Extracting || j.stage == InstallStage::Verifying || j.stage
            == InstallStage::Hashing || j.stage == InstallStage::Recording,
        next(j, e).0 == InstallStage::Failed,
    ensures
        next(j, e).1 matches ActionModel::CleanupAndFail(d, _) && d == j.dir,
{
}

/// Before unpacking, a failure is reported without writing anything.
pub proof fn lemma_failure_before_unpacking_writes_nothing(j: JobModel, e: EventModel)
    requires
        j.stage == InstallStage::Probing || j.stage == InstallStage::ClearingPartial || j.stage
            == InstallStage::Fetching,
        next(j, e).0 == InstallStage::Failed,
    ensures
        next(j, e).1 is Fail,
{
}

/// An archive that does not unpack leaves no install directory behind and
/// is reported as an incomplete extraction.
pub proof fn lemma_unpack_failure(j: JobModel)
    requires
        j.stage == InstallStage::Extracting,
    ensures
        next(j, EventModel::Extracted(false)) == (
            InstallStage::Failed,
            ActionModel::CleanupAndFail(j.dir, LifecycleError::ExtractionIncomplete),
        ),
{
}

/// A complete install is refused before anything is written; a partial one
/// is removed first; with no directory the archive is fetched.
pub proof fn lemma_probe_outcomes(j: JobModel, marker_exists: bool)
    requires
        j.stage == InstallStage::Probing,
    ensures
        next(j, EventModel::Probed(true, true)) == (
            InstallStage::Failed,
            ActionModel::Fail(LifecycleError::AlreadyInstalled),
        ),
        next(j, EventModel::Probed(true, false)) == (
            InstallStage::ClearingPartial,
            ActionModel::RemoveDir(j.dir),
        ),
        next(j, EventModel::Probed(false, marker_exists)) == (
            InstallStage::Fetching,
            ActionModel::Fetch(j.url),
        ),
{
}

/// A record is written only after the executable was found in the unpacked
/// directory: hashing follows a present marker alone, and recording follows
/// hashing alone.
pub proof fn lemma_record_needs_marker(j: JobModel, e: EventModel)
    ensures
        next(j, e).0 == InstallStage::Hashing && j.stage != InstallStage::Hashing ==> j.stage
            == InstallStage::Verifying && e == EventModel::MarkerProbed(true),
        next(j, e).1 is Record ==> j.stage == InstallStage::Hashing,
{
}

/// The removal target named by a text: `version-ts`, `version-nts`, or a
/// bare version.
pub open spec fn target_parts(s: Seq<char>) -> (Seq<char>, Option<Variant>) {
    if s.len() >= 4 && s.subrange(s.len() - 4, s.len() as int) == "-nts"@ {
        (s.subrange(0, s.len() - 4), Some(Variant::NonThreadSafe))
    } else if s.len() >= 3 && s.subrange(s.len() - 3, s.len() as int) == "-ts"@ {
        (s.subrange(0, s.len() - 3), Some(Variant::ThreadSafe))
    } else {
        (s, None)
    }
}

fn ends_with_chars(v: &Vec<char>, t: &str) -> (r: bool)
    ensures
        r == (v@.len() >= t@.len() && v@.subrange(v@.len() - t@.len(), v@.len() as int) == t@),
{
    let tv = chars_of(t);
    if tv.len() > v.len() {
        return false;
    }
    let off = v.len() - tv.len();
    let mut i: usize = 0;
    while i < tv.len()
        invariant
            off as int + tv@.len() == v@.len(),
            v@.len() <= usize::MAX,
            tv@ == t@,
            i <= tv@.len(),
            forall|j: int| 0 <= j < i ==> v@[off + j] == tv@[j],
        decreases tv@.len() - i,
    {
        if v[off + i] != tv[i] {
            assert(v@.subrange(off as int, v@.len() as int)[i as int] != t@[i as int]);
            return false;
        }
        i = i + 1;
    }
    assert(v@.subrange(off as int, v@.len() as int) =~= t@);
    true
}

/// Reads a removal target: a version, and its variant when the text ends in
/// `-ts` or `-nts`.
pub fn parse_target(s: &str) -> (r: Result<(PhpVersion, Option<Variant>), LifecycleError>)
    ensures
        match parse_version(target_parts(s@).0) {
            Ok(m) => r matches Ok(t) && t.0@ == m && t.1 == target_parts(s@).1,
            Err(e) => r == Err::<(PhpVersion, Option<Variant>), LifecycleError>(
                LifecycleError::Parse(e),
            ),
        },
{
    let v = chars_of(s);
    proof {
        reveal_strlit("-nts");
        reveal_strlit("-ts");
    }
    let (base, variant) = if ends_with_chars(&v, "-nts") {
        (sub_chars(&v, 0, v.len() - 4), Some(Variant::NonThreadSafe))
    } else if ends_with_chars(&v, "-ts") {
        (sub_chars(&v, 0, v.len() - 3), Some(Variant::ThreadSafe))
    } else {
        (sub_chars(&v, 0, v.len()), None)
    };
    proof {
        assert(v@.subrange(0, v@.len() as int) =~= v@);
    }
    let text = string_of(&base);
    match PhpVersion::from_string(text.as_str()) {
        Ok(version) => Ok((version, variant)),
        Err(e) => Err(LifecycleError::Parse(e)),
    }
}

/// The install directory of a version and variant below `root`.
pub fn install_dir_path(version: &PhpVersion, variant: Variant, root: &str) -> (r: String)
    ensures
        r@ == join_path(root@, install_dir_text(version@, variant)),
{
    let name = install_dir_name(version, variant);
    join(root, name.as_str())
}

/// What a removal deletes and which record it drops.
pub struct RemovalPlan {
    pub dir: String,
    pub key: String,
}

/// The directory and key of a removal: those of the variant named; with
/// none named, the thread-safe install if its directory exists, else the
/// non-thread-safe one if its directory exists, else the unqualified
/// directory and key of older installs.
pub open spec fn removal_choice(
    m: VersionModel,
    variant: Option<Variant>,
    root: Seq<char>,
    ts_exists: bool,
    nts_exists: bool,
) -> (Seq<char>, Seq<char>) {
    match variant {
        Some(v) => (join_path(root, install_dir_text(m, v)), install_key_text(m, v)),
        None => if ts_exists {
            (
                join_path(root, install_dir_text(m, Variant::ThreadSafe)),
                install_key_text(m, Variant::ThreadSafe),
            )
        } else if nts_exists {
            (
                join_path(root, install_dir_text(m, Variant::NonThreadSafe)),
                install_key_text(m, Variant::NonThreadSafe),
            )
        } else {
            (join_path(root, "php-"@ + render(m)), render(m))
        },
    }
}

/// Chooses what to remove, given whether the directories of both variants
/// exist below `root`.
pub fn plan_removal(
    version: &PhpVersion,
    variant: Option<Variant>,
    root: &str,
    ts_exists: bool,
    nts_exists: bool,
) -> (r: RemovalPlan)
    ensures
        (r.dir@, r.key@) == removal_choice(version@, variant, root@, ts_exists, nts_exists),
{
    let chosen = match variant {
        Some(v) => Some(v),
        None => if ts_exists {
            Some(Variant::ThreadSafe)
        } else if nts_exists {
            Some(Variant::NonThreadSafe)
        } else {
            None
        },
    };
    match chosen {
        Some(v) => RemovalPlan {
            dir: install_dir_path(version, v, root),
            key: install_key(version, v),
        },
        None => {
            let name = version.directory_name();
            proof {
                reveal_strlit("php-");
                assert(seq!['p', 'h', 'p', '-'] =~= "php-"@);
            }
            RemovalPlan { dir: join(root, name.as_str()), key: version.to_string() }
        },
    }
}

/// Checks a planned removal against the disk and the state, and drops the
/// record when it may go. A missing directory is `NotInstalled`; the active
/// key is `ActiveVersionInUse`; either way the state is left as it was. The
/// caller deletes the directory and saves the state after an `Ok`.
pub fn commit_removal(state: &mut PhpState, plan: &RemovalPlan, dir_exists: bool) -> (r: Result<
    (),
    LifecycleError,
>)
    requires
        old(state).wf(),
    ensures
        !dir_exists ==> r == Err::<(), LifecycleError>(LifecycleError::NotInstalled) && *final(state)
            == *old(state),
        dir_exists && old(state)@.active == Some(plan.key@) ==> r == Err::<(), LifecycleError>(
            LifecycleError::ActiveVersionInUse,
        ) && *final(state) == *old(state),
        dir_exists && old(state)@.active != Some(plan.key@) ==> r is Ok && final(state).wf()
            && final(state)@ == removed(old(state)@, plan.key@),
{
    if !dir_exists {
        return Err(LifecycleError::NotInstalled);
    }
    let active = match &state.active_version {
        Some(a) => a.as_str().eq(plan.key.as_str()),
        None => false,
    };
    if active {
        return Err(LifecycleError::ActiveVersionInUse);
    }
    state.remove_version(plan.key.as_str());
    Ok(())
}

} // verus!
