//! Read-only inspection: listing, status, diffs, and sealed results.

use vstd::prelude::*;
use vstd::string::*;
use vstd::utf8::*;

use crate::artifacts::StoredResult;
use crate::error::{Error, ErrorView};
use crate::git::{Snapshot, SnapshotView};
use crate::git_path::GitPath;
use crate::manager::CapsuleManager;
use crate::model::{
    Capsule, CapsuleHealth, CapsuleListing, CapsuleResult, CapsuleState, CapsuleStatus,
    CapsuleSummary, UnreadableRecord,
};
use crate::order::Ordered;
use crate::paths::NativePath;
use crate::worktree::WorktreeInspection;
use crate::{
    artifacts, bytes, digest, error, manager, order, record, store, text, validate, worktree,
};

verus! {

/// One entry of the directory that holds the capsule records, as it was read.
#[derive(Debug, PartialEq, Eq)]
pub struct StoredEntry {
    /// Whether it is a directory and no symbolic link.
    pub directory: bool,
    /// Its name, where that is text.
    pub name: Option<String>,
    /// Whether it holds a manifest.
    pub has_manifest: Result<bool, Error>,
    /// What its manifest decodes to.
    pub manifest: Result<Capsule, Error>,
}

/// Whether an entry is named and shaped like a capsule record.
pub open spec fn is_record(e: StoredEntry) -> bool {
    e.directory && (e.name matches Some(n) && validate::is_capsule_id(n@))
}

/// The capsules that a row of entries holds, in the order read; or the first
/// error met.
pub open spec fn capsules_of(root: Seq<u8>, entries: Seq<StoredEntry>) -> std::result::Result<
    Seq<Capsule>,
    ErrorView,
>
    decreases entries.len(),
{
    if entries.len() == 0 {
        Ok(Seq::empty())
    } else {
        match capsules_of(root, entries.drop_last()) {
            Err(e) => Err(e),
            Ok(before) => with_entry(root, before, entries.last()),
        }
    }
}

/// A row of capsules with what one more entry holds.
pub open spec fn with_entry(root: Seq<u8>, before: Seq<Capsule>, e: StoredEntry) -> std::result::Result<
    Seq<Capsule>,
    ErrorView,
> {
    if !is_record(e) {
        Ok(before)
    } else {
        match e.has_manifest {
            Err(found) => Err(found@),
            Ok(false) => Ok(before),
            Ok(true) => match store::read_check(root, e.name->0@, e.manifest) {
                Err(found) => Err(found),
                Ok(_) => Ok(before.push(e.manifest->Ok_0)),
            },
        }
    }
}

/// The capsules that can be read from a row of entries, in the order read.
pub open spec fn readable_of(root: Seq<u8>, entries: Seq<StoredEntry>) -> Seq<Capsule>
    decreases entries.len(),
{
    if entries.len() == 0 {
        Seq::empty()
    } else {
        let before = readable_of(root, entries.drop_last());
        match with_entry(root, before, entries.last()) {
            Ok(all) => all,
            Err(_) => before,
        }
    }
}

/// What an [`UnreadableRecord`] holds.
pub struct UnreadableView {
    pub id: Seq<char>,
    pub error: Seq<char>,
}

impl View for UnreadableRecord {
    type V = UnreadableView;

    open spec fn view(&self) -> UnreadableView {
        UnreadableView { id: self.id@, error: self.error@ }
    }
}

impl Ordered for UnreadableRecord {
    open spec fn precedes(self, other: Self) -> bool {
        bytes::bytes_before(encode_utf8(self.id@), encode_utf8(other.id@))
    }

    fn before(&self, other: &Self) -> (r: bool) {
        bytes::before(self.id.as_str().as_bytes(), other.id.as_str().as_bytes())
    }
}

/// What describes the records that cannot be read from a row of entries, in
/// the order read.
pub open spec fn unreadable_of(root: Seq<u8>, entries: Seq<StoredEntry>) -> Seq<UnreadableView>
    decreases entries.len(),
{
    if entries.len() == 0 {
        Seq::empty()
    } else {
        let before = unreadable_of(root, entries.drop_last());
        match with_entry(root, Seq::empty(), entries.last()) {
            Ok(_) => before,
            Err(e) => before.push(
                UnreadableView { id: entries.last().name->0@, error: error::message_of(e) },
            ),
        }
    }
}

/// Whether each entry summarizes the capsule at its place.
pub open spec fn summarize(summaries: Seq<CapsuleSummary>, capsules: Seq<Capsule>) -> bool {
    &&& summaries.len() == capsules.len()
    &&& forall|i: int|
        0 <= i < summaries.len() ==> (#[trigger] summaries[i]).summarizes(capsules[i])
}

/// Summarize each capsule of a row.
pub fn summaries(capsules: &Vec<Capsule>) -> (r: Vec<CapsuleSummary>)
    ensures
        summarize(r@, capsules@),
{
    let mut r: Vec<CapsuleSummary> = Vec::new();
    let mut i: usize = 0;
    while i < capsules.len()
        invariant
            i <= capsules.len(),
            r@.len() == i,
            forall|j: int| 0 <= j < i ==> (#[trigger] r@[j]).summarizes(capsules@[j]),
        decreases capsules.len() - i,
    {
        r.push(CapsuleSummary::of(&capsules[i]));
        i += 1;
    }
    r
}

/// What taking a snapshot of a workspace requires before anything is read.
pub open spec fn snapshot_gate_check(
    sparse: std::result::Result<bool, Error>,
    dirty_submodules: std::result::Result<bool, Error>,
) -> std::result::Result<(), ErrorView> {
    match sparse {
        Err(e) => Err(e@),
        Ok(true) => Err(
            ErrorView::InvalidInput(
                "a capsule workspace with sparse checkout enabled cannot produce a complete snapshot; disable sparse checkout first"@,
            ),
        ),
        Ok(false) => match dirty_submodules {
            Err(e) => Err(e@),
            Ok(true) => Err(
                ErrorView::InvalidInput(
                    "dirty submodule worktrees cannot be represented by a top-level capsule patch; commit or clean them first"@,
                ),
            ),
            Ok(false) => Ok(()),
        },
    }
}

/// Refuse to take a snapshot of a workspace whose state it could not cover.
pub fn check_snapshot_gate(
    sparse: std::result::Result<bool, Error>,
    dirty_submodules: std::result::Result<bool, Error>,
) -> (r: std::result::Result<(), Error>)
    ensures
        error::outcome(r) == snapshot_gate_check(sparse, dirty_submodules),
{
    match sparse {
        Err(e) => {
            return Err(e);
        },
        Ok(on) => {
            if on {
                return Err(
                    Error::InvalidInput(
                        "a capsule workspace with sparse checkout enabled cannot produce a complete snapshot; disable sparse checkout first".to_owned(),
                    ),
                );
            }
        },
    }
    match dirty_submodules {
        Err(e) => Err(e),
        Ok(dirty) => if dirty {
            Err(
                Error::InvalidInput(
                    "dirty submodule worktrees cannot be represented by a top-level capsule patch; commit or clean them first".to_owned(),
                ),
            )
        } else {
            Ok(())
        },
    }
}

/// Whether a capsule's seal still matches its stored artifacts and its
/// workspace, where that can be told. Artifacts that drifted do not match.
///
/// Ignored content is provenance, not a gate: its later change does not break
/// a seal.
pub open spec fn seal_matches_of(
    capsule: Capsule,
    snapshot: SnapshotView,
    head: Seq<char>,
    stored: std::result::Result<StoredResult, Error>,
    patch: std::result::Result<Vec<u8>, Error>,
) -> std::result::Result<bool, ErrorView> {
    match artifacts::sealed_check(capsule, stored, patch) {
        Err(ErrorView::ResultDrift(_)) => Ok(false),
        Err(e) => Err(e),
        Ok(_) => Ok(
            artifacts::seal_agrees(
                capsule,
                capsule.result->0,
                stored->Ok_0.result@,
                stored->Ok_0.encoded@,
                patch->Ok_0@,
            ) && stored->Ok_0.result@.head_commit == head && stored->Ok_0.result@.patch_sha256
                == digest::sha256_hex_of(snapshot.patch) && stored->Ok_0.result@.patch_bytes
                == snapshot.patch.len() && stored->Ok_0.result@.changed_paths
                == snapshot.changed_paths && patch->Ok_0@ == snapshot.patch,
        ),
    }
}

/// Everything that was read to tell whether a seal still holds.
#[derive(Debug, PartialEq, Eq)]
pub struct SealObservation {
    /// What proves ownership of the workspace.
    pub inspection: WorktreeInspection,
    /// The complete change in the workspace from the pinned base.
    pub snapshot: Result<Snapshot, Error>,
    /// The `HEAD` commit of the workspace.
    pub head: Result<String, Error>,
    /// The stored result.
    pub stored: Result<StoredResult, Error>,
    /// The stored patch.
    pub patch: Result<Vec<u8>, Error>,
}

/// What requiring an intact seal says.
pub open spec fn sealed_state_check(capsule: Capsule, o: SealObservation) -> std::result::Result<
    (),
    ErrorView,
> {
    if capsule.result is None {
        Err(manager::state_error(capsule, "a sealed result"@))
    } else if worktree::ownership_check(capsule, o.inspection) is Err {
        worktree::ownership_check(capsule, o.inspection)
    } else if o.snapshot is Err {
        Err(o.snapshot->Err_0@)
    } else if o.head is Err {
        Err(o.head->Err_0@)
    } else {
        match seal_matches_of(capsule, o.snapshot->Ok_0@, o.head->Ok_0@, o.stored, o.patch) {
            Err(e) => Err(e),
            Ok(true) => Ok(()),
            Ok(false) => Err(ErrorView::ResultDrift(capsule.id@)),
        }
    }
}

/// Everything that was read for a capsule's status.
///
/// What could not be read carries the error that prevented it.
#[derive(Debug, PartialEq, Eq)]
pub struct StatusObservation {
    /// Whether anything exists at the workspace path.
    pub workspace_exists: bool,
    /// What proves ownership of the workspace.
    pub inspection: WorktreeInspection,
    /// The complete change in the workspace from the pinned base.
    pub snapshot: Result<Snapshot, Error>,
    /// Ignored untracked paths.
    pub ignored_paths: Result<Vec<GitPath>, Error>,
    /// The `HEAD` commit of the workspace.
    pub head: Result<String, Error>,
    /// Whether the workspace is clean.
    pub clean: Result<bool, Error>,
    /// Commits reachable from `HEAD` but not from the base.
    pub commits_ahead: Result<u64, Error>,
    /// The stored result.
    pub stored: Result<StoredResult, Error>,
    /// The stored patch.
    pub patch: Result<Vec<u8>, Error>,
}

/// The health that is plain without reading the workspace's content.
pub open spec fn early_health(c: Capsule, o: StatusObservation) -> Option<CapsuleHealth> {
    if c.state is Dropped {
        Some(CapsuleHealth::Dropped)
    } else if c.state is Creating {
        Some(CapsuleHealth::IncompleteCreation)
    } else if !o.workspace_exists {
        Some(CapsuleHealth::MissingWorktree)
    } else if worktree::ownership_check(c, o.inspection) is Err {
        Some(CapsuleHealth::ForeignWorktree)
    } else {
        None
    }
}

/// Whether the seal holds, for a capsule whose workspace content could be read.
pub open spec fn live_seal(c: Capsule, o: StatusObservation) -> std::result::Result<
    Option<bool>,
    ErrorView,
> {
    if o.snapshot is Err {
        Err(o.snapshot->Err_0@)
    } else if o.ignored_paths is Err {
        Err(o.ignored_paths->Err_0@)
    } else if o.head is Err {
        Err(o.head->Err_0@)
    } else if o.clean is Err {
        Err(o.clean->Err_0@)
    } else if o.commits_ahead is Err {
        Err(o.commits_ahead->Err_0@)
    } else if c.result is None {
        Ok(None)
    } else {
        match seal_matches_of(c, o.snapshot->Ok_0@, o.head->Ok_0@, o.stored, o.patch) {
            Err(e) => Err(e),
            Ok(b) => Ok(Some(b)),
        }
    }
}

/// The health of a capsule whose workspace content could be read.
pub open spec fn live_health(state: CapsuleState, sealed: Option<bool>) -> CapsuleHealth {
    if sealed == Some(false) && (state is Closed || state is Integrating || state is Integrated
        || state is Dropping) {
        CapsuleHealth::DriftedAfterClose
    } else if state is Checkpointing {
        CapsuleHealth::IncompleteCheckpoint
    } else {
        CapsuleHealth::Healthy
    }
}

/// Whether a status says nothing but a health.
pub open spec fn is_bare_status(s: CapsuleStatus, c: Capsule, health: CapsuleHealth) -> bool {
    &&& s.capsule == c
    &&& s.health == health
    &&& s.head_commit is None
    &&& s.dirty is None
    &&& s.changed_paths@.len() == 0
    &&& s.ignored_paths@.len() == 0
    &&& s.commits_ahead is None
    &&& s.sealed is None
}

/// Whether a status is that of a capsule whose workspace content was read.
pub open spec fn is_live_status(
    s: CapsuleStatus,
    c: Capsule,
    o: StatusObservation,
    sealed: Option<bool>,
) -> bool {
    &&& s.capsule == c
    &&& s.health == live_health(c.state, sealed)
    &&& s.head_commit == Some(o.head->Ok_0)
    &&& s.dirty == Some(!o.clean->Ok_0)
    &&& s.changed_paths == o.snapshot->Ok_0.changed_paths
    &&& s.ignored_paths == o.ignored_paths->Ok_0
    &&& s.commits_ahead == Some(o.commits_ahead->Ok_0)
    &&& s.sealed == sealed
}

fn bare_status(capsule: Capsule, health: CapsuleHealth) -> (r: CapsuleStatus)
    ensures
        is_bare_status(r, capsule, health),
{
    CapsuleStatus {
        capsule,
        health,
        head_commit: None,
        dirty: None,
        changed_paths: Vec::new(),
        ignored_paths: Vec::new(),
        commits_ahead: None,
        sealed: None,
    }
}

/// Everything that was read for a capsule's diff.
#[derive(Debug, PartialEq, Eq)]
pub struct DiffObservation {
    /// What proves ownership of the workspace.
    pub inspection: WorktreeInspection,
    /// The complete change in the workspace from the pinned base.
    pub snapshot: Result<Snapshot, Error>,
    /// The stored result.
    pub stored: Result<StoredResult, Error>,
    /// The stored patch.
    pub patch: Result<Vec<u8>, Error>,
}

/// Where a capsule's complete patch comes from.
pub enum DiffSource {
    /// Its sealed patch.
    Sealed,
    /// Its workspace.
    Live,
    /// Nowhere: it left none.
    Empty,
    /// Its state does not say.
    Unknown,
}

/// Where a capsule's complete patch comes from.
pub open spec fn diff_source(c: Capsule) -> DiffSource {
    match c.state {
        CapsuleState::Closed | CapsuleState::Integrating | CapsuleState::Integrated =>
            DiffSource::Sealed,
        CapsuleState::Active | CapsuleState::Checkpointing => DiffSource::Live,
        CapsuleState::Creating | CapsuleState::Orphaned => DiffSource::Unknown,
        CapsuleState::Dropping | CapsuleState::Dropped => if c.result is Some {
            DiffSource::Sealed
        } else {
            DiffSource::Empty
        },
    }
}

/// The complete patch of a capsule.
pub open spec fn diff_of(c: Capsule, o: DiffObservation) -> std::result::Result<
    Seq<u8>,
    ErrorView,
> {
    match diff_source(c) {
        DiffSource::Sealed => match artifacts::intact_check(c, o.stored, o.patch) {
            Err(e) => Err(e),
            Ok(_) => Ok(o.patch->Ok_0@),
        },
        DiffSource::Live => if worktree::ownership_check(c, o.inspection) is Err {
            Err(worktree::ownership_check(c, o.inspection)->Err_0)
        } else {
            match o.snapshot {
                Err(e) => Err(e@),
                Ok(s) => Ok(s@.patch),
            }
        },
        DiffSource::Empty => Ok(Seq::empty()),
        DiffSource::Unknown => Err(manager::state_error(c, "active or a sealed result"@)),
    }
}

/// Whether a commit is one that a capsule's record knows of: its base, a
/// checkpoint, the sealed head, or an end of a checkpoint in progress.
pub open spec fn knows_head(c: Capsule, head: Seq<char>) -> bool {
    ||| head == c.base_commit@
    ||| exists|i: int| 0 <= i < c.checkpoints@.len() && (#[trigger] c.checkpoints@[i]).commit@ == head
    ||| (c.result matches Some(r) && r.head_commit@ == head)
    ||| (c.checkpoint matches Some(j) && (j.head_before@ == head || j.head_after@ == head))
}

/// Whether some checkpoint of a capsule is a commit.
pub fn has_checkpoint(c: &Capsule, commit: &str) -> (r: bool)
    ensures
        r == exists|i: int|
            0 <= i < c.checkpoints@.len() && (#[trigger] c.checkpoints@[i]).commit@ == commit@,
{
    let mut i: usize = 0;
    while i < c.checkpoints.len()
        invariant
            i <= c.checkpoints.len(),
            forall|j: int| 0 <= j < i ==> (#[trigger] c.checkpoints@[j]).commit@ != commit@,
        decreases c.checkpoints.len() - i,
    {
        if text::same_text(c.checkpoints[i].commit.as_str(), commit) {
            return true;
        }
        i += 1;
    }
    false
}

/// Test for [`knows_head`].
pub fn recorded_capsule_head(c: &Capsule, head: &str) -> (r: bool)
    ensures
        r == knows_head(*c, head@),
{
    let sealed_head = match &c.result {
        Some(result) => text::same_text(result.head_commit.as_str(), head),
        None => false,
    };
    let journal_head = match &c.checkpoint {
        Some(j) => text::same_text(j.head_before.as_str(), head) || text::same_text(
            j.head_after.as_str(),
            head,
        ),
        None => false,
    };
    text::same_text(head, c.base_commit.as_str()) || has_checkpoint(c, head) || sealed_head
        || journal_head
}

impl CapsuleManager {
    /// Every capsule of the entries read, ordered by identifier; the first
    /// record that cannot be read fails the listing.
    pub fn list_capsules(&self, entries: Vec<StoredEntry>) -> (r: std::result::Result<
        Vec<Capsule>,
        Error,
    >)
        ensures
            match capsules_of(self.store.root@, entries@) {
                Ok(all) => r matches Ok(found) && found@ == order::sorted(all),
                Err(e) => r matches Err(found) && found@ == e,
            },
    {
        match self.collect_capsules(entries) {
            Err(e) => Err(e),
            Ok(capsules) => Ok(order::sort(capsules)),
        }
    }

    fn collect_capsules(&self, entries: Vec<StoredEntry>) -> (r: std::result::Result<
        Vec<Capsule>,
        Error,
    >)
        ensures
            match capsules_of(self.store.root@, entries@) {
                Ok(all) => r matches Ok(found) && found@ == all,
                Err(e) => r matches Err(found) && found@ == e,
            },
        decreases entries@.len(),
    {
        let mut todo = entries;
        let last = match todo.pop() {
            None => {
                return Ok(Vec::new());
            },
            Some(last) => last,
        };
        proof {
            assert(todo@ =~= entries@.drop_last());
            assert(last == entries@.last());
        }
        let mut capsules = match self.collect_capsules(todo) {
            Err(e) => {
                return Err(e);
            },
            Ok(capsules) => capsules,
        };
        match self.read_entry(last) {
            Err((_, e)) => Err(e),
            Ok(None) => Ok(capsules),
            Ok(Some(c)) => {
                capsules.push(c);
                Ok(capsules)
            },
        }
    }

    fn read_entry(&self, entry: StoredEntry) -> (r: std::result::Result<
        Option<Capsule>,
        (String, Error),
    >)
        ensures
            forall|before: Seq<Capsule>|
                #![trigger with_entry(self.store.root@, before, entry)]
                match with_entry(self.store.root@, before, entry) {
                    Err(e) => r matches Err(found) && found.1@ == e && found.0@ == entry.name->0@,
                    Ok(all) => match r {
                        Ok(None) => all == before,
                        Ok(Some(c)) => all == before.push(c),
                        Err(_) => false,
                    },
                },
    {
        let name = match entry.name {
            None => {
                return Ok(None);
            },
            Some(name) => name,
        };
        if !entry.directory || !validate::valid_capsule_id(name.as_str()) {
            return Ok(None);
        }
        let has_manifest = match entry.has_manifest {
            Err(e) => {
                return Err((name, e));
            },
            Ok(b) => b,
        };
        if !has_manifest {
            return Ok(None);
        }
        match self.store.read_capsule(name.as_str(), entry.manifest) {
            Err(e) => Err((name, e)),
            Ok(c) => Ok(Some(c)),
        }
    }

    fn collect_reporting(&self, entries: Vec<StoredEntry>) -> (r: (
        Vec<Capsule>,
        Vec<UnreadableRecord>,
    ))
        ensures
            r.0@ == readable_of(self.store.root@, entries@),
            record::views(r.1@) == unreadable_of(self.store.root@, entries@),
        decreases entries@.len(),
    {
        let mut todo = entries;
        let last = match todo.pop() {
            None => {
                let capsules: Vec<Capsule> = Vec::new();
                let unreadable: Vec<UnreadableRecord> = Vec::new();
                proof {
                    assert(record::views(unreadable@) =~= Seq::<UnreadableView>::empty());
                }
                return (capsules, unreadable);
            },
            Some(last) => last,
        };
        proof {
            assert(todo@ =~= entries@.drop_last());
            assert(last == entries@.last());
        }
        let (mut capsules, mut unreadable) = self.collect_reporting(todo);
        let ghost before = capsules@;
        let ghost lost = unreadable@;
        let ghost with_before = with_entry(self.store.root@, before, last);
        let ghost with_none = with_entry(self.store.root@, Seq::empty(), last);
        match self.read_entry(last) {
            Err((id, e)) => {
                let record = UnreadableRecord { id, error: e.message() };
                let ghost held = record@;
                unreadable.push(record);
                proof {
                    assert(record::views(unreadable@) =~= record::views(lost).push(held));
                }
            },
            Ok(None) => {},
            Ok(Some(c)) => {
                capsules.push(c);
            },
        }
        (capsules, unreadable)
    }

    /// Summarize every durable capsule record, ordered by identifier.
    pub fn list(&self, entries: Vec<StoredEntry>) -> (r: std::result::Result<
        Vec<CapsuleSummary>,
        Error,
    >)
        ensures
            match capsules_of(self.store.root@, entries@) {
                Ok(all) => r matches Ok(found) && summarize(found@, order::sorted(all)),
                Err(e) => r matches Err(found) && found@ == e,
            },
    {
        match self.list_capsules(entries) {
            Err(e) => Err(e),
            Ok(capsules) => Ok(summaries(&capsules)),
        }
    }

    /// Summarize capsules, reporting unreadable records rather than failing.
    ///
    /// [`CapsuleManager::list`] fails closed on the first malformed record,
    /// which leaves an operator with no way to see the rest. This returns
    /// everything that reads, plus a description of everything that does not.
    pub fn list_reporting(&self, entries: Vec<StoredEntry>) -> (r: CapsuleListing)
        ensures
            summarize(
                r.capsules@,
                order::sorted(readable_of(self.store.root@, entries@)),
            ),
            exists|unsorted: Seq<UnreadableRecord>|
                record::views(unsorted) == unreadable_of(self.store.root@, entries@)
                    && r.unreadable@ == #[trigger] order::sorted(unsorted),
    {
        let (capsules, unreadable) = self.collect_reporting(entries);
        let ghost unsorted = unreadable@;
        let sorted = order::sort(capsules);
        let unreadable = order::sort(unreadable);
        proof {
            assert(unreadable@ == order::sorted(unsorted));
        }
        CapsuleListing { capsules: summaries(&sorted), unreadable }
    }

    /// Tell whether a capsule's seal still matches; see [`seal_matches_of`].
    pub fn seal_matches(
        &self,
        capsule: &Capsule,
        snapshot: &Snapshot,
        head: &str,
        stored: std::result::Result<StoredResult, Error>,
        patch: std::result::Result<Vec<u8>, Error>,
    ) -> (r: std::result::Result<bool, Error>)
        ensures
            match seal_matches_of(*capsule, snapshot@, head@, stored, patch) {
                Ok(b) => r == Ok::<bool, Error>(b),
                Err(e) => r matches Err(found) && found@ == e,
            },
    {
        match self.sealed_artifacts(capsule, stored, patch) {
            Err(e) => match e {
                Error::ResultDrift(_) => Ok(false),
                other => Err(other),
            },
            Ok(sealed) => Ok(
                sealed.matches_seal && text::same_text(
                    sealed.result.head_commit.as_str(),
                    head,
                ) && text::same_text(
                    sealed.result.patch_sha256.as_str(),
                    digest::sha256_hex(snapshot.patch.as_slice()).as_str(),
                ) && sealed.result.patch_bytes == snapshot.patch.len() as u64
                    && record::same_rows(&sealed.result.changed_paths, &snapshot.changed_paths)
                    && bytes::same_bytes(sealed.patch.as_slice(), snapshot.patch.as_slice()),
            ),
        }
    }

    /// Refuse a capsule that is not sealed, or whose seal no longer matches its
    /// artifacts and its workspace.
    pub fn ensure_sealed(&self, capsule: &Capsule, observed: SealObservation) -> (r:
        std::result::Result<(), Error>)
        ensures
            error::outcome(r) == sealed_state_check(*capsule, observed),
    {
        if capsule.result.is_none() {
            return Err(manager::invalid_state(capsule, "a sealed result"));
        }
        match worktree::validate_owned_worktree(capsule, &observed.inspection) {
            Err(e) => {
                return Err(e);
            },
            Ok(_) => {},
        }
        let snapshot = match observed.snapshot {
            Err(e) => {
                return Err(e);
            },
            Ok(s) => s,
        };
        let head = match observed.head {
            Err(e) => {
                return Err(e);
            },
            Ok(h) => h,
        };
        match self.seal_matches(
            capsule,
            &snapshot,
            head.as_str(),
            observed.stored,
            observed.patch,
        ) {
            Err(e) => Err(e),
            Ok(holds) => if holds {
                Ok(())
            } else {
                Err(Error::ResultDrift(capsule.id.clone()))
            },
        }
    }

    /// A capsule's workspace health, changes, and seal state.
    pub fn status_for(&self, capsule: Capsule, observed: StatusObservation) -> (r:
        std::result::Result<CapsuleStatus, Error>)
        ensures
            match early_health(capsule, observed) {
                Some(health) => r matches Ok(s) && is_bare_status(s, capsule, health),
                None => match live_seal(capsule, observed) {
                    Err(e) => r matches Err(found) && found@ == e,
                    Ok(sealed) => r matches Ok(s) && is_live_status(s, capsule, observed, sealed),
                },
            },
    {
        if capsule.state == CapsuleState::Dropped {
            return Ok(bare_status(capsule, CapsuleHealth::Dropped));
        }
        if capsule.state == CapsuleState::Creating {
            return Ok(bare_status(capsule, CapsuleHealth::IncompleteCreation));
        }
        if !observed.workspace_exists {
            return Ok(bare_status(capsule, CapsuleHealth::MissingWorktree));
        }
        if worktree::validate_owned_worktree(&capsule, &observed.inspection).is_err() {
            return Ok(bare_status(capsule, CapsuleHealth::ForeignWorktree));
        }
        let snapshot = match observed.snapshot {
            Err(e) => {
                return Err(e);
            },
            Ok(s) => s,
        };
        let ignored_paths = match observed.ignored_paths {
            Err(e) => {
                return Err(e);
            },
            Ok(p) => p,
        };
        let head = match observed.head {
            Err(e) => {
                return Err(e);
            },
            Ok(h) => h,
        };
        let clean = match observed.clean {
            Err(e) => {
                return Err(e);
            },
            Ok(b) => b,
        };
        let commits_ahead = match observed.commits_ahead {
            Err(e) => {
                return Err(e);
            },
            Ok(n) => n,
        };
        let sealed: Option<bool> = if capsule.result.is_some() {
            match self.seal_matches(
                &capsule,
                &snapshot,
                head.as_str(),
                observed.stored,
                observed.patch,
            ) {
                Err(e) => {
                    return Err(e);
                },
                Ok(b) => Some(b),
            }
        } else {
            None
        };
        let drifted = match sealed {
            Some(b) => !b,
            None => false,
        };
        let health = if drifted && (capsule.state == CapsuleState::Closed || capsule.state
            == CapsuleState::Integrating || capsule.state == CapsuleState::Integrated
            || capsule.state == CapsuleState::Dropping) {
            CapsuleHealth::DriftedAfterClose
        } else if capsule.state == CapsuleState::Checkpointing {
            CapsuleHealth::IncompleteCheckpoint
        } else {
            CapsuleHealth::Healthy
        };
        Ok(
            CapsuleStatus {
                capsule,
                health,
                head_commit: Some(head),
                dirty: Some(!clean),
                changed_paths: snapshot.changed_paths,
                ignored_paths,
                commits_ahead: Some(commits_ahead),
                sealed,
            },
        )
    }

    /// Inspect a capsule's workspace health, changes, and seal state.
    pub fn status(
        &self,
        id: &str,
        manifest: std::result::Result<Capsule, Error>,
        observed: StatusObservation,
    ) -> (r: std::result::Result<CapsuleStatus, Error>)
        ensures
            match manager::show_check(self.store.root@, id@, manifest) {
                Err(e) => r matches Err(found) && found@ == e,
                Ok(_) => match early_health(manifest->Ok_0, observed) {
                    Some(health) => r matches Ok(s) && is_bare_status(s, manifest->Ok_0, health),
                    None => match live_seal(manifest->Ok_0, observed) {
                        Err(e) => r matches Err(found) && found@ == e,
                        Ok(sealed) => r matches Ok(s) && is_live_status(
                            s,
                            manifest->Ok_0,
                            observed,
                            sealed,
                        ),
                    },
                },
            },
    {
        match self.show(id, manifest) {
            Err(e) => Err(e),
            Ok(c) => self.status_for(c, observed),
        }
    }

    /// Complete patch from the pinned base: sealed if closed, live if active.
    pub fn diff(
        &self,
        id: &str,
        manifest: std::result::Result<Capsule, Error>,
        observed: DiffObservation,
    ) -> (r: std::result::Result<Vec<u8>, Error>)
        ensures
            match manager::show_check(self.store.root@, id@, manifest) {
                Err(e) => r matches Err(found) && found@ == e,
                Ok(_) => match diff_of(manifest->Ok_0, observed) {
                    Err(e) => r matches Err(found) && found@ == e,
                    Ok(patch) => r matches Ok(found) && found@ == patch,
                },
            },
    {
        let capsule = match self.show(id, manifest) {
            Err(e) => {
                return Err(e);
            },
            Ok(c) => c,
        };
        match capsule.state {
            CapsuleState::Closed | CapsuleState::Integrating | CapsuleState::Integrated => {
                self.sealed_diff(&capsule, observed)
            },
            CapsuleState::Active | CapsuleState::Checkpointing => {
                match worktree::validate_owned_worktree(&capsule, &observed.inspection) {
                    Err(e) => {
                        return Err(e);
                    },
                    Ok(_) => {},
                }
                match observed.snapshot {
                    Err(e) => Err(e),
                    Ok(s) => Ok(s.patch),
                }
            },
            CapsuleState::Creating | CapsuleState::Orphaned => Err(
                manager::invalid_state(&capsule, "active or a sealed result"),
            ),
            CapsuleState::Dropping | CapsuleState::Dropped => if capsule.result.is_some() {
                self.sealed_diff(&capsule, observed)
            } else {
                Ok(Vec::new())
            },
        }
    }

    fn sealed_diff(&self, capsule: &Capsule, observed: DiffObservation) -> (r: std::result::Result<
        Vec<u8>,
        Error,
    >)
        ensures
            match artifacts::intact_check(*capsule, observed.stored, observed.patch) {
                Err(e) => r matches Err(found) && found@ == e,
                Ok(_) => r matches Ok(found) && found == observed.patch->Ok_0,
            },
    {
        match self.intact_artifacts(capsule, observed.stored, observed.patch) {
            Err(e) => Err(e),
            Ok(sealed) => Ok(sealed.patch),
        }
    }

    /// Read a sealed result, failing on drift.
    pub fn result(
        &self,
        id: &str,
        manifest: std::result::Result<Capsule, Error>,
        stored: std::result::Result<StoredResult, Error>,
        patch: std::result::Result<Vec<u8>, Error>,
    ) -> (r: std::result::Result<CapsuleResult, Error>)
        ensures
            match manager::show_check(self.store.root@, id@, manifest) {
                Err(e) => r matches Err(found) && found@ == e,
                Ok(_) => if manifest->Ok_0.result is None {
                    r matches Err(found) && found@ == manager::state_error(
                        manifest->Ok_0,
                        "closed, integrating, integrated, or dropped result"@,
                    )
                } else {
                    match artifacts::intact_check(manifest->Ok_0, stored, patch) {
                        Err(e) => r matches Err(found) && found@ == e,
                        Ok(_) => r matches Ok(found) && found == stored->Ok_0.result,
                    }
                },
            },
    {
        let capsule = match self.show(id, manifest) {
            Err(e) => {
                return Err(e);
            },
            Ok(c) => c,
        };
        if capsule.result.is_none() {
            return Err(
                manager::invalid_state(
                    &capsule,
                    "closed, integrating, integrated, or dropped result",
                ),
            );
        }
        match self.intact_artifacts(&capsule, stored, patch) {
            Err(e) => Err(e),
            Ok(sealed) => Ok(sealed.result),
        }
    }

    /// Path to the sealed patch file, after confirming that it still matches
    /// its seal.
    pub fn result_patch_path(
        &self,
        id: &str,
        manifest: std::result::Result<Capsule, Error>,
        stored: std::result::Result<StoredResult, Error>,
        patch: std::result::Result<Vec<u8>, Error>,
    ) -> (r: std::result::Result<NativePath, Error>)
        ensures
            match manager::show_check(self.store.root@, id@, manifest) {
                Err(e) => r matches Err(found) && found@ == e,
                Ok(_) => match artifacts::intact_check(manifest->Ok_0, stored, patch) {
                    Err(e) => r matches Err(found) && found@ == e,
                    Ok(_) => r matches Ok(p) && p@ == artifacts::artifact_path(
                        self.store.root@,
                        id@,
                        "result.patch"@,
                    ),
                },
            },
    {
        let capsule = match self.show(id, manifest) {
            Err(e) => {
                return Err(e);
            },
            Ok(c) => c,
        };
        match self.intact_artifacts(&capsule, stored, patch) {
            Err(e) => {
                return Err(e);
            },
            Ok(_) => {},
        }
        match self.store.capsule_dir(id) {
            Err(e) => Err(e),
            Ok(d) => Ok(d.join("result.patch")),
        }
    }
}

/// Listing is a permutation of the records read: none is lost and none is
/// made up.
pub proof fn law_listing_keeps_every_record(root: Seq<u8>, entries: Seq<StoredEntry>)
    requires
        capsules_of(root, entries) is Ok,
    ensures
        order::sorted(capsules_of(root, entries)->Ok_0).to_multiset() == capsules_of(
            root,
            entries,
        )->Ok_0.to_multiset(),
{
    order::lemma_sorted_is_permutation(capsules_of(root, entries)->Ok_0);
}

/// Listing is ordered by identifier.
pub proof fn law_listing_is_ordered(capsules: Seq<Capsule>, i: int, j: int)
    requires
        0 <= i < j < order::sorted(capsules).len(),
    ensures
        !bytes::bytes_before(
            encode_utf8(order::sorted(capsules)[j].id@),
            encode_utf8(order::sorted(capsules)[i].id@),
        ),
{
    assert forall|a: Capsule, b: Capsule| #[trigger] a.precedes(b) implies !b.precedes(a) by {
        if b.precedes(a) {
            bytes::lemma_before_transitive(
                encode_utf8(a.id@),
                encode_utf8(b.id@),
                encode_utf8(a.id@),
            );
            bytes::lemma_before_irreflexive(encode_utf8(a.id@));
        }
    }
    assert forall|a: Capsule, b: Capsule, c: Capsule|
        !(#[trigger] b.precedes(a)) && !(#[trigger] c.precedes(b)) implies !c.precedes(a) by {
        if c.precedes(a) {
            bytes::lemma_before_total(encode_utf8(a.id@), encode_utf8(b.id@));
            if a.precedes(b) {
                bytes::lemma_before_transitive(
                    encode_utf8(c.id@),
                    encode_utf8(a.id@),
                    encode_utf8(b.id@),
                );
            }
        }
    }
    order::lemma_sorted_in_order(capsules);
}

/// Whether no two named entries have the same name, as in a directory.
pub open spec fn names_differ(entries: Seq<StoredEntry>) -> bool {
    forall|i: int, j: int|
        0 <= i < j < entries.len() && (#[trigger] entries[i]).name is Some && (
        #[trigger] entries[j]).name is Some ==> entries[i].name->0@ != entries[j].name->0@
}

/// Whether some entry is named by an identifier.
pub open spec fn named_among(entries: Seq<StoredEntry>, id: Seq<char>) -> bool {
    exists|i: int|
        0 <= i < entries.len() && ((#[trigger] entries[i]).name matches Some(n) && n@ == id)
}

/// What is read of entries with different names has different identifiers, each
/// the name of an entry, and none is both read and reported.
proof fn lemma_listed_apart(root: Seq<u8>, entries: Seq<StoredEntry>)
    requires
        names_differ(entries),
    ensures
        forall|i: int|
            0 <= i < readable_of(root, entries).len() ==> named_among(
                entries,
                (#[trigger] readable_of(root, entries)[i]).id@,
            ),
        forall|i: int|
            0 <= i < unreadable_of(root, entries).len() ==> named_among(
                entries,
                (#[trigger] unreadable_of(root, entries)[i]).id,
            ),
        forall|i: int, j: int|
            0 <= i < j < readable_of(root, entries).len() ==> (#[trigger] readable_of(
                root,
                entries,
            )[i]).id@ != (#[trigger] readable_of(root, entries)[j]).id@,
        forall|i: int, j: int|
            0 <= i < j < unreadable_of(root, entries).len() ==> (#[trigger] unreadable_of(
                root,
                entries,
            )[i]).id != (#[trigger] unreadable_of(root, entries)[j]).id,
        forall|i: int, j: int|
            0 <= i < readable_of(root, entries).len() && 0 <= j < unreadable_of(
                root,
                entries,
            ).len() ==> (#[trigger] readable_of(root, entries)[i]).id@ != (
            #[trigger] unreadable_of(root, entries)[j]).id,
    decreases entries.len(),
{
    if entries.len() > 0 {
        let earlier = entries.drop_last();
        let last = entries.last();
        assert(names_differ(earlier)) by {
            assert forall|i: int, j: int|
                0 <= i < j < earlier.len() && (#[trigger] earlier[i]).name is Some && (
                #[trigger] earlier[j]).name is Some implies earlier[i].name->0@
                != earlier[j].name->0@ by {
                assert(earlier[i] == entries[i] && earlier[j] == entries[j]);
            }
        }
        lemma_listed_apart(root, earlier);
        assert forall|id: Seq<char>| #[trigger] named_among(earlier, id) implies named_among(
            entries,
            id,
        ) && (last.name matches Some(n) ==> n@ != id) by {
            let k = choose|k: int|
                0 <= k < earlier.len() && ((#[trigger] earlier[k]).name matches Some(n) && n@ == id);
            assert(entries[k] == earlier[k]);
            assert(entries[entries.len() - 1] == last);
        }
        assert(last.name matches Some(n) ==> named_among(entries, n@)) by {
            assert(entries[entries.len() - 1] == last);
        }
        let read = readable_of(root, earlier);
        let reported = unreadable_of(root, earlier);
        assert forall|i: int| 0 <= i < unreadable_of(root, entries).len() implies (
        #[trigger] unreadable_of(root, entries)[i]).id == if i < reported.len() {
            reported[i].id
        } else {
            last.name->0@
        } by {}
        assert(unreadable_of(root, entries).len() > reported.len() ==> is_record(last)
            && readable_of(root, entries) == read);
        assert forall|i: int| 0 <= i < reported.len() implies named_among(
            entries,
            #[trigger] reported[i].id,
        ) && (last.name matches Some(n) ==> n@ != reported[i].id) by {
            assert(named_among(earlier, reported[i].id));
        }
        assert forall|i: int| 0 <= i < read.len() implies named_among(
            entries,
            #[trigger] read[i].id@,
        ) && (last.name matches Some(n) ==> n@ != read[i].id@) by {
            assert(named_among(earlier, read[i].id@));
        }
    }
}

/// In a listing of entries whose names differ, the identifiers strictly ascend,
/// among the capsules that were read and among the records that were not, and
/// no identifier is in both.
pub proof fn law_listing_strictly_ascends(
    root: Seq<u8>,
    entries: Seq<StoredEntry>,
    unreadable: Seq<UnreadableRecord>,
)
    requires
        names_differ(entries),
        record::views(unreadable) == unreadable_of(root, entries),
    ensures
        forall|i: int, j: int|
            0 <= i < j < order::sorted(readable_of(root, entries)).len() ==> bytes::bytes_before(
                encode_utf8((#[trigger] order::sorted(readable_of(root, entries))[i]).id@),
                encode_utf8((#[trigger] order::sorted(readable_of(root, entries))[j]).id@),
            ),
        forall|i: int, j: int|
            0 <= i < j < order::sorted(unreadable).len() ==> bytes::bytes_before(
                encode_utf8((#[trigger] order::sorted(unreadable)[i]).id@),
                encode_utf8((#[trigger] order::sorted(unreadable)[j]).id@),
            ),
        forall|i: int, j: int|
            0 <= i < order::sorted(readable_of(root, entries)).len() && 0 <= j < order::sorted(
                unreadable,
            ).len() ==> (#[trigger] order::sorted(readable_of(root, entries))[i]).id@ != (
            #[trigger] order::sorted(unreadable)[j]).id@,
{
    let read = readable_of(root, entries);
    lemma_listed_apart(root, entries);
    order::lemma_sorted_keeps_distinct(read, |c: Capsule| c.id@);
    assert forall|i: int, j: int| 0 <= i < j < unreadable.len() implies (
    #[trigger] unreadable[i]).id@ != (#[trigger] unreadable[j]).id@ by {
        assert(unreadable_of(root, entries)[i] == unreadable[i]@);
        assert(unreadable_of(root, entries)[j] == unreadable[j]@);
    }
    order::lemma_sorted_keeps_distinct(unreadable, |u: UnreadableRecord| u.id@);
    let a = order::sorted(read);
    let b = order::sorted(unreadable);
    assert forall|i: int, j: int| 0 <= i < j < a.len() implies bytes::bytes_before(
        encode_utf8((#[trigger] a[i]).id@),
        encode_utf8((#[trigger] a[j]).id@),
    ) by {
        law_listing_is_ordered(read, i, j);
        let id = |c: Capsule| c.id@;
        assert(id(a[i]) != id(a[j]));
        lemma_ids_ordered(a[i].id@, a[j].id@);
    }
    lemma_reported_in_order(unreadable);
    assert forall|i: int, j: int| 0 <= i < j < b.len() implies bytes::bytes_before(
        encode_utf8((#[trigger] b[i]).id@),
        encode_utf8((#[trigger] b[j]).id@),
    ) by {
        let id = |u: UnreadableRecord| u.id@;
        assert(id(b[i]) != id(b[j]));
        assert(!b[j].precedes(b[i]));
        lemma_ids_ordered(b[i].id@, b[j].id@);
    }
    assert forall|i: int, j: int| 0 <= i < a.len() && 0 <= j < b.len() implies (
    #[trigger] a[i]).id@ != (#[trigger] b[j]).id@ by {
        order::lemma_sorted_contains(read, i);
        order::lemma_sorted_contains(unreadable, j);
        let m = read.index_of(a[i]);
        let n = unreadable.index_of(b[j]);
        assert(read[m] == a[i]);
        assert(unreadable_of(root, entries)[n] == unreadable[n]@);
    }
}

/// Of two different identifiers, one that does not come later comes earlier.
proof fn lemma_ids_ordered(a: Seq<char>, b: Seq<char>)
    requires
        a != b,
        !bytes::bytes_before(encode_utf8(b), encode_utf8(a)),
    ensures
        bytes::bytes_before(encode_utf8(a), encode_utf8(b)),
{
    if encode_utf8(a) == encode_utf8(b) {
        digest::lemma_encode_utf8_injective(a, b);
    }
    bytes::lemma_before_total(encode_utf8(a), encode_utf8(b));
}

/// Sorted reports of unreadable records are in order.
proof fn lemma_reported_in_order(rows: Seq<UnreadableRecord>)
    ensures
        forall|i: int, j: int|
            0 <= i < j < order::sorted(rows).len() ==> !(#[trigger] order::sorted(
                rows,
            )[j]).precedes(#[trigger] order::sorted(rows)[i]),
{
    assert forall|a: UnreadableRecord, b: UnreadableRecord| #[trigger] a.precedes(b) implies !(
    b.precedes(a)) by {
        if b.precedes(a) {
            let (x, y) = (encode_utf8(a.id@), encode_utf8(b.id@));
            bytes::lemma_before_transitive(x, y, x);
            bytes::lemma_before_irreflexive(x);
        }
    }
    assert forall|a: UnreadableRecord, b: UnreadableRecord, c: UnreadableRecord|
        !(#[trigger] b.precedes(a)) && !(#[trigger] c.precedes(b)) implies !c.precedes(a) by {
        if c.precedes(a) {
            let (x, y, z) = (encode_utf8(a.id@), encode_utf8(b.id@), encode_utf8(c.id@));
            bytes::lemma_before_total(x, y);
            if a.precedes(b) {
                bytes::lemma_before_transitive(z, x, y);
            }
        }
    }
    order::lemma_sorted_in_order(rows);
}

/// Where every record can be read, reporting loses nothing and reports
/// nothing: both listings hold the same capsules.
pub proof fn law_reporting_agrees_with_listing(root: Seq<u8>, entries: Seq<StoredEntry>)
    requires
        capsules_of(root, entries) is Ok,
    ensures
        readable_of(root, entries) == capsules_of(root, entries)->Ok_0,
        unreadable_of(root, entries).len() == 0,
    decreases entries.len(),
{
    if entries.len() > 0 {
        law_reporting_agrees_with_listing(root, entries.drop_last());
        let before = readable_of(root, entries.drop_last());
        assert(with_entry(root, before, entries.last()) is Ok);
        assert(with_entry(root, Seq::empty(), entries.last()) is Ok);
    }
}

/// A capsule whose sealed artifacts drifted never passes as sealed: integration
/// and ordinary cleanup are refused.
pub proof fn law_drift_breaks_the_seal(capsule: Capsule, o: SealObservation)
    requires
        artifacts::intact_check(capsule, o.stored, o.patch) is Err,
    ensures
        sealed_state_check(capsule, o) is Err,
{
}

/// A workspace whose tracked change is not the sealed one never passes as
/// sealed.
pub proof fn law_tracked_change_breaks_the_seal(capsule: Capsule, o: SealObservation)
    requires
        o.snapshot is Ok,
        o.patch is Ok,
        o.snapshot->Ok_0@.patch != o.patch->Ok_0@,
    ensures
        sealed_state_check(capsule, o) is Err,
{
}

} // verus!
