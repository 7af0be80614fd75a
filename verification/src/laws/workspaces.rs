//! Whose a workspace is.

use vstd::prelude::*;
use vstd::string::*;

use crate::error::Error;
use crate::git::WorktreeRecord;
use crate::laws::places;
use crate::laws::records;
use crate::manager::CapsuleManager;
use crate::model::Capsule;
use crate::paths::NativePath;
use crate::worktree::{CommonDirProbe, PathProbe, WorktreeInspection};
use crate::{checkpoint, laws, worktree};

verus! {

/// Whether a registered worktree is on a capsule's branch, at a commit, and not
/// bare.
pub open spec fn is_registered(c: Capsule, found: WorktreeRecord, head: Option<Seq<char>>) -> bool {
    &&& laws::opt(found.branch) == Some(c.branch@)
    &&& laws::opt(found.head) == head
    &&& !found.bare
}

/// Whether a workspace proves to be the one that a capsule created: it belongs
/// to the same repository, through the Git directory that was recorded, at its
/// own path, on the capsule's branch, and Git has it registered so.
pub open spec fn is_own(c: Capsule, seen: WorktreeInspection) -> bool {
    &&& seen.repository matches Ok(r) && places::same_place(
        r.common_dir.bytes@,
        c.repository_common_dir.bytes@,
    )
    &&& c.workspace_git_dir matches Some(d) && places::same_place(
        d.bytes@,
        seen.repository->Ok_0.git_dir.bytes@,
    )
    &&& seen.canonical_workspace matches Ok(p) && places::same_place(
        seen.repository->Ok_0.worktree.bytes@,
        p.bytes@,
    )
    &&& seen.branch matches Ok(b) && b@ == c.branch@
    &&& seen.head is Ok
    &&& seen.registered matches Ok(Some(found)) && is_registered(
        c,
        found,
        Some(seen.head->Ok_0@),
    )
}

pub(crate) proof fn lemma_own(c: Capsule, seen: WorktreeInspection)
    ensures
        is_own(c, seen) <==> worktree::ownership_check(c, seen) is Ok,
{
    if let Ok(r) = seen.repository {
        places::lemma_same_place(r.common_dir.bytes@, c.repository_common_dir.bytes@);
        if let Some(d) = c.workspace_git_dir {
            places::lemma_same_place(d.bytes@, r.git_dir.bytes@);
        }
        if let Ok(p) = seen.canonical_workspace {
            places::lemma_same_place(r.worktree.bytes@, p.bytes@);
        }
    }
}

/// A workspace is taken for a capsule's own exactly where everything that was
/// read of it agrees with the record.
pub proof fn law_ownership_is_proved_by_every_read(
    c: Capsule,
    seen: WorktreeInspection,
    r: std::result::Result<(), Error>,
)
    requires
        call_ensures(worktree::validate_owned_worktree, (&c, &seen), r),
    ensures
        r is Ok <==> is_own(c, seen),
        seen.repository is Err ==> (r matches Err(Error::ForeignWorktree(p)) && p.bytes@
            == c.workspace_path.bytes@),
{
    lemma_own(c, seen);
}

/// Whether a change to a capsule is admitted: both reads found its record, it is
/// active, and its workspace is its own.
pub open spec fn is_open(
    root: Seq<u8>,
    id: Seq<char>,
    shown: std::result::Result<Capsule, Error>,
    stored: std::result::Result<Capsule, Error>,
    seen: WorktreeInspection,
) -> bool {
    &&& records::is_found(root, id, shown)
    &&& records::is_found(root, id, stored)
    &&& stored->Ok_0.state is Active
    &&& is_own(stored->Ok_0, seen)
}

pub(crate) proof fn lemma_open(
    root: Seq<u8>,
    id: Seq<char>,
    shown: std::result::Result<Capsule, Error>,
    stored: std::result::Result<Capsule, Error>,
    seen: WorktreeInspection,
)
    ensures
        is_open(root, id, shown, stored, seen) <==> checkpoint::active_check(
            root,
            id,
            shown,
            stored,
            seen,
        ) is Ok,
        records::is_found(root, id, shown) && records::is_found(root, id, stored)
            <==> checkpoint::locked_check(root, id, shown, stored) is Ok,
{
    records::lemma_found(root, id, shown);
    records::lemma_found(root, id, stored);
    if let Ok(c) = stored {
        lemma_own(c, seen);
    }
}

/// Whatever was shown before the locks were taken, what is worked on is what is
/// stored then, and a command is only run for an active capsule in a workspace
/// of its own.
pub proof fn law_work_is_on_what_is_stored(
    m: CapsuleManager,
    id: &str,
    shown: std::result::Result<Capsule, Error>,
    stored: std::result::Result<Capsule, Error>,
    seen: WorktreeInspection,
    reread: std::result::Result<Capsule, Error>,
    active: std::result::Result<Capsule, Error>,
    run: std::result::Result<Capsule, Error>,
)
    requires
        call_ensures(CapsuleManager::reread, (&m, id, shown, stored), reread),
        call_ensures(CapsuleManager::reread_active, (&m, id, shown, stored, &seen), active),
        call_ensures(CapsuleManager::admit_run, (&m, id, shown, &seen), run),
    ensures
        reread is Ok <==> records::is_found(m.store.root.bytes@, id@, shown) && records::is_found(
            m.store.root.bytes@,
            id@,
            stored,
        ),
        reread is Ok ==> reread == stored,
        active is Ok <==> is_open(m.store.root.bytes@, id@, shown, stored, seen),
        active is Ok ==> active == stored,
        run is Ok <==> is_open(m.store.root.bytes@, id@, shown, shown, seen),
        run is Ok ==> run == shown,
{
    lemma_open(m.store.root.bytes@, id@, shown, stored, seen);
    lemma_open(m.store.root.bytes@, id@, shown, shown, seen);
}

/// Whether a path was found to belong to a capsule's repository.
pub open spec fn belongs(probe: PathProbe, c: Capsule) -> bool {
    probe.exists && (probe.common_dir matches Some(d) && places::same_place(
        d.bytes@,
        c.repository_common_dir.bytes@,
    ))
}

/// Git is run from the first of the source worktree, the workspace, and the
/// common directory that still belongs to the capsule's repository, and from
/// nowhere else.
pub proof fn law_git_runs_in_the_same_repository(
    c: Capsule,
    source: PathProbe,
    workspace: PathProbe,
    common: CommonDirProbe,
    r: std::result::Result<NativePath, Error>,
)
    requires
        call_ensures(worktree::execution_root, (&c, &source, &workspace, &common), r),
    ensures
        r is Ok <==> belongs(source, c) || belongs(workspace, c) || common.exists && (
        common.canonical matches Ok(p) && places::same_place(
            p.bytes@,
            c.repository_common_dir.bytes@,
        )),
        r matches Ok(p) ==> p.bytes@ == (if belongs(source, c) {
            c.source_worktree.bytes@
        } else if belongs(workspace, c) {
            c.workspace_path.bytes@
        } else {
            c.repository_common_dir.bytes@
        }),
{
    if let Some(d) = source.common_dir {
        places::lemma_same_place(d.bytes@, c.repository_common_dir.bytes@);
    }
    if let Some(d) = workspace.common_dir {
        places::lemma_same_place(d.bytes@, c.repository_common_dir.bytes@);
    }
    if let Ok(p) = common.canonical {
        places::lemma_same_place(p.bytes@, c.repository_common_dir.bytes@);
    }
}

} // verus!
