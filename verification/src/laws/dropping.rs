//! What a cleanup may remove.

use vstd::prelude::*;
use vstd::string::*;

use crate::cleanup::{CleanupObservation, DropObservation, DropStep, Removal};
use crate::error::Error;
use crate::git::WorktreeRecord;
use crate::laws::records;
use crate::laws::sealing;
use crate::laws::workspaces;
use crate::manager::CapsuleManager;
use crate::model::{Capsule, CapsuleState, Cleanup};
use crate::{checkpoint, cleanup, laws, query};

verus! {

/// Whether dropping a capsule has to prove its seal first: it is sealed, and
/// nothing is forced.
pub open spec fn must_be_sealed(c: Capsule, force: bool) -> bool {
    !force && (c.state is Closed || c.state is Integrated)
}

/// The capsule with the Git directory of the workspace that was found, where a
/// creation stopped before it was recorded.
pub open spec fn with_found_git_dir(c: Capsule, o: DropObservation) -> Capsule {
    if c.state is Creating && c.workspace_git_dir is None && o.workspace_exists {
        Capsule { workspace_git_dir: Some(o.workspace_repository->Ok_0.git_dir), ..c }
    } else {
        c
    }
}

/// Whether a commit is one that a capsule's record knows of.
pub open spec fn is_known(c: Capsule, head: Seq<char>) -> bool {
    ||| head == c.base_commit@
    ||| exists|i: int| 0 <= i < c.checkpoints@.len() && (#[trigger] c.checkpoints@[i]).commit@ == head
    ||| (c.result matches Some(s) && s.head_commit@ == head)
    ||| (c.checkpoint matches Some(j) && (j.head_before@ == head || j.head_after@ == head))
}

/// Whether a cleanup may begin. Work that is not sealed, or is in the middle of
/// a transition, is only given up by force. Whatever is forced, an existing
/// workspace must prove to be the capsule's own and at its branch, and where it
/// is gone, what is left of it must be what the record knows.
pub open spec fn may_begin(c: Capsule, force: bool, o: DropObservation) -> bool {
    &&& c.state is Creating || c.state is Checkpointing || c.state is Integrating || c.state
        is Active ==> force
    &&& must_be_sealed(c, force) ==> sealing::still_sealed(c, o.seal)
    &&& o.execution_root is Ok
    &&& o.branch_head is Ok
    &&& if o.workspace_exists {
        &&& c.state is Creating && c.workspace_git_dir is None ==> o.workspace_repository is Ok
        &&& workspaces::is_own(with_found_git_dir(c, o), o.inspection)
        &&& o.head matches Ok(h) && laws::opt(o.branch_head->Ok_0) == Some(h@)
    } else {
        &&& !must_be_sealed(c, force)
        &&& match o.registered {
            Err(_) => false,
            Ok(Some(found)) => workspaces::is_registered(
                c,
                found,
                laws::opt(o.branch_head->Ok_0),
            ),
            Ok(None) => o.branch_head->Ok_0 matches Some(h) ==> is_known(c, h@),
        }
    }
}

proof fn lemma_begin(c: Capsule, id: Seq<char>, force: bool, o: DropObservation)
    ensures
        may_begin(c, force, o) <==> cleanup::drop_check(c, id, force, o) is Ok,
{
    sealing::lemma_still_sealed(c, o.seal);
    workspaces::lemma_own(with_found_git_dir(c, o), o.inspection);
    assert(with_found_git_dir(c, o) == cleanup::with_observed_git_dir(c, o));
}

/// A capsule is dropped only where that is safe, and what is about to happen is
/// journaled first. Dropping it again changes nothing, and a cleanup that was
/// begun is taken up.
pub proof fn law_capsules_are_dropped_only_where_it_is_safe(
    m: CapsuleManager,
    id: &str,
    force: bool,
    shown: std::result::Result<Capsule, Error>,
    stored: std::result::Result<Capsule, Error>,
    o: DropObservation,
    at: u64,
    r: std::result::Result<DropStep, Error>,
)
    requires
        call_ensures(CapsuleManager::drop_capsule, (&m, id, force, shown, stored, o, at), r),
    ensures
        r is Ok <==> {
            &&& records::is_found(m.store.root.bytes@, id@, shown)
            &&& records::is_found(m.store.root.bytes@, id@, stored)
            &&& stored->Ok_0.state is Dropped || stored->Ok_0.state is Dropping || may_begin(
                stored->Ok_0,
                force,
                o,
            )
        },
        r matches Ok(DropStep::Dropped(c)) ==> c == stored->Ok_0 && c.state is Dropped,
        r matches Ok(DropStep::Resume(c)) ==> c == stored->Ok_0 && c.state is Dropping,
        r matches Ok(DropStep::Begin(c)) ==> {
            &&& !(stored->Ok_0.state is Dropped) && !(stored->Ok_0.state is Dropping)
            &&& c == (Capsule {
                state: CapsuleState::Dropping,
                cleanup: c.cleanup,
                updated_at_unix: at,
                ..with_found_git_dir(stored->Ok_0, o)
            })
            &&& c.cleanup matches Some(k) && laws::opt(k.branch_head) == laws::opt(
                o.branch_head->Ok_0,
            ) && k.require_sealed == must_be_sealed(stored->Ok_0, force) && k.started_at_unix == at
        },
{
    workspaces::lemma_open(m.store.root.bytes@, id@, shown, stored, o.inspection);
    if let Ok(c) = stored {
        lemma_begin(c, id@, force, o);
        assert(with_found_git_dir(c, o) == cleanup::with_observed_git_dir(c, o));
    }
}

/// A journaled cleanup removes a worktree only where it proves to be the
/// capsule's own, at the journaled commit, and, where the journal asks for it,
/// still as it was sealed. Where the worktree is gone, its registration is only
/// forgotten where it is the capsule's.
pub proof fn law_only_proved_worktrees_are_removed(
    m: CapsuleManager,
    c: Capsule,
    o: CleanupObservation,
    r: std::result::Result<Removal, Error>,
)
    requires
        call_ensures(CapsuleManager::finish_cleanup, (&m, &c, o), r),
    ensures
        r == Ok::<Removal, Error>(Removal::RemoveWorktree) <==> {
            &&& c.cleanup is Some
            &&& o.execution_root is Ok
            &&& o.workspace_exists
            &&& workspaces::is_own(c, o.inspection)
            &&& o.head matches Ok(h) && laws::opt(c.cleanup->0.branch_head) == Some(h@)
            &&& c.cleanup->0.require_sealed ==> sealing::still_sealed(c, o.seal)
        },
        r == Ok::<Removal, Error>(Removal::Prune) <==> {
            &&& c.cleanup is Some
            &&& o.execution_root is Ok
            &&& !o.workspace_exists
            &&& o.registered matches Ok(Some(found)) && workspaces::is_registered(
                c,
                found,
                laws::opt(c.cleanup->0.branch_head),
            )
        },
        r == Ok::<Removal, Error>(Removal::Nothing) <==> {
            &&& c.cleanup is Some
            &&& o.execution_root is Ok
            &&& !o.workspace_exists
            &&& o.registered matches Ok(None)
        },
{
    workspaces::lemma_own(c, o.inspection);
    sealing::lemma_still_sealed(c, o.seal);
}

/// A cleanup goes on only where nothing is registered any more, and where no
/// branch appeared that was not there when it began.
pub proof fn law_cleanups_stop_at_what_appeared(
    c: Capsule,
    registered: std::result::Result<Option<WorktreeRecord>, Error>,
    branch_head: std::result::Result<Option<String>, Error>,
    pruned: std::result::Result<(), Error>,
    absent: std::result::Result<(), Error>,
)
    requires
        call_ensures(cleanup::check_pruned, (&c, registered), pruned),
        call_ensures(cleanup::check_branch_absent, (&c, branch_head), absent),
    ensures
        pruned is Ok <==> (registered matches Ok(None)),
        absent is Ok <==> (branch_head matches Ok(None)),
{
}

/// A dropped capsule keeps its record: its journals of work in progress are
/// closed, and everything else stays as it was.
pub proof fn law_dropped_capsules_keep_their_record(c: Capsule, at: u64, r: (Capsule, String))
    requires
        call_ensures(cleanup::complete_cleanup, (c, at), r),
    ensures
        r.0 == (Capsule {
            state: CapsuleState::Dropped,
            checkpoint: None,
            cleanup: None,
            dropped_at_unix: Some(at),
            ..c
        }),
{
}

} // verus!
