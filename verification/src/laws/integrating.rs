//! What an integration starts from, proposes, and leaves behind.

use vstd::prelude::*;
use vstd::string::*;

use crate::artifacts::StoredResult;
use crate::error::Error;
use crate::git::Repository;
use crate::integrate::{
    IntegrationTarget, PreparedIntegration, StartedIntegration, TargetObservation, TargetRecheck,
};
use crate::laws::places;
use crate::laws::records;
use crate::laws::sealing;
use crate::laws::workspaces;
use crate::manager::CapsuleManager;
use crate::model::{Capsule, CapsuleResult, CapsuleState, Integration};
use crate::options::{Author, IntegrateOptions};
use crate::query::SealObservation;
use crate::{artifacts, git, integrate, laws, manager, validate};

verus! {

/// Whether a commit identity can be used: a name, and an address with an `@`.
pub open spec fn is_author(a: Author) -> bool {
    &&& laws::is_text(a.name@, 256, false)
    &&& laws::is_text(a.email@, 512, false)
    &&& a.email@.contains('@')
}

pub(crate) proof fn lemma_author(a: Author)
    ensures
        is_author(a) <==> validate::author_check(a.name@, a.email@) is Ok,
{
    laws::lemma_text(a.name@, 256, "author name"@, false);
    laws::lemma_text(a.email@, 512, "author email"@, false);
}

/// Whether a target may be integrated into: a clean and full checkout of the
/// capsule's repository, other than its own workspace, that is still at the
/// pinned base.
pub open spec fn is_target(c: Capsule, o: TargetObservation) -> bool {
    &&& o.repository matches Ok(t) && places::same_place(
        t.common_dir.bytes@,
        c.repository_common_dir.bytes@,
    ) && !places::same_place(t.worktree.bytes@, c.workspace_path.bytes@)
    &&& o.sparse == Ok::<bool, Error>(false)
    &&& o.hidden == Ok::<bool, Error>(false)
    &&& o.clean == Ok::<bool, Error>(true)
    &&& o.head matches Ok(h) && h@ == c.base_commit@
    &&& o.head_ref is Ok
}

proof fn lemma_target(c: Capsule, o: TargetObservation)
    ensures
        is_target(c, o) <==> integrate::target_check(c, o) is Ok,
{
    if let Ok(t) = o.repository {
        places::lemma_same_place(t.common_dir.bytes@, c.repository_common_dir.bytes@);
        places::lemma_same_place(t.worktree.bytes@, c.workspace_path.bytes@);
    }
}

/// A target is admitted exactly where it is a clean and full checkout of the
/// same repository at the pinned base, and what is worked on is what was read.
pub proof fn law_targets_are_clean_and_at_the_pinned_base(
    c: Capsule,
    o: TargetObservation,
    r: std::result::Result<IntegrationTarget, Error>,
)
    requires
        call_ensures(integrate::validate_integration_target, (&c, o), r),
    ensures
        r is Ok <==> is_target(c, o),
        r matches Ok(t) ==> t.repository == o.repository->Ok_0 && t.head@ == c.base_commit@
            && t.head_ref@ == o.head_ref->Ok_0@,
{
    lemma_target(c, o);
}

/// An integration starts exactly where its options are usable, the capsule is
/// closed and its seal still holds, and the target is clean and at the pinned
/// base.
pub proof fn law_integrations_start_exactly_from_the_pinned_base(
    m: CapsuleManager,
    id: &str,
    options: IntegrateOptions,
    shown: std::result::Result<Capsule, Error>,
    stored: std::result::Result<Capsule, Error>,
    seal: SealObservation,
    target: TargetObservation,
    result: std::result::Result<StoredResult, Error>,
    patch: std::result::Result<Vec<u8>, Error>,
    at: u64,
    r: std::result::Result<StartedIntegration, Error>,
)
    requires
        call_ensures(
            CapsuleManager::integrate,
            (&m, id, &options, shown, stored, seal, target, result, patch, at),
            r,
        ),
    ensures
        r is Ok <==> {
            &&& is_author(options.author)
            &&& options.message matches Some(t) ==> laws::is_text(t@, 16384, true)
            &&& records::is_found(m.store.root.bytes@, id@, shown)
            &&& records::is_found(m.store.root.bytes@, id@, stored)
            &&& stored->Ok_0.state is Closed
            &&& sealing::still_sealed(stored->Ok_0, seal)
            &&& is_target(stored->Ok_0, target)
            &&& result matches Ok(s) && s.result.capsule_id@ == id@ && records::is_result(s.result)
            &&& patch matches Ok(p) && p@.len() <= 67108864
        },
{
    lemma_author(options.author);
    if let Some(t) = options.message {
        laws::lemma_text(t@, 16384, "integration message"@, true);
    }
    workspaces::lemma_open(m.store.root.bytes@, id@, shown, stored, seal.inspection);
    laws::lemma_shapes(id@);
    if let Ok(c) = stored {
        sealing::lemma_still_sealed(c, seal);
        lemma_target(c, target);
    }
    if let Ok(s) = result {
        records::lemma_result(s.result);
    }
}

/// A started integration journals what it is going to do: where, from which
/// commit, by whom, and under which subject. The subject is the message that was
/// given; where none was, the capsule's label; and where there is neither, one
/// that names the capsule.
pub proof fn law_started_integrations_are_journaled(
    m: CapsuleManager,
    id: &str,
    options: IntegrateOptions,
    shown: std::result::Result<Capsule, Error>,
    before: Capsule,
    seal: SealObservation,
    target: TargetObservation,
    result: std::result::Result<StoredResult, Error>,
    patch: std::result::Result<Vec<u8>, Error>,
    at: u64,
    started: StartedIntegration,
)
    requires
        call_ensures(
            CapsuleManager::integrate,
            (&m, id, &options, shown, Ok(before), seal, target, result, patch, at),
            Ok(started),
        ),
    ensures
        started.capsule == (Capsule {
            state: CapsuleState::Integrating,
            integration: started.capsule.integration,
            updated_at_unix: at,
            ..before
        }),
        started.capsule.integration is Some,
        ({
            let i = started.capsule.integration->0;
            &&& options.message matches Some(t) ==> i.commit_message@ == t@
            &&& options.message is None ==> (before.label matches Some(l) ==> i.commit_message@
                == l@)
            &&& options.message is None && before.label is None ==> i.commit_message@
                == "Integrate capsule "@ + before.id@
            &&& i.author_name@ == options.author.name@
            &&& i.author_email@ == options.author.email@
            &&& i.target_worktree.bytes@ == target.repository->Ok_0.worktree.bytes@
            &&& i.target_git_dir.bytes@ == target.repository->Ok_0.git_dir.bytes@
            &&& i.target_head_ref@ == target.head_ref->Ok_0@
            &&& i.target_head_before@ == before.base_commit@
            &&& i.target_head_after is None
            &&& i.started_at_unix == at
            &&& i.integrated_at_unix is None
        }),
        started.target == target.repository->Ok_0,
        started.result == result->Ok_0.result,
        started.patch@ == patch->Ok_0@,
{
}

/// The commit of an integration names its capsule below its subject.
pub proof fn law_integration_commits_name_their_capsule(subject: &str, id: &str, r: String)
    requires
        call_ensures(integrate::integration_message, (subject, id), r),
    ensures
        r@ == subject@ + "\n\nChange-Capsule: "@ + id@,
{
}

/// A commit is proposed for a target exactly where it has the pinned base as its
/// one parent and makes exactly the sealed change; a result that changes nothing
/// proposes the commit the target is at.
pub proof fn law_proposed_commits_make_the_sealed_change(
    c: Capsule,
    result: CapsuleResult,
    patch: &[u8],
    p: PreparedIntegration,
    r: std::result::Result<String, Error>,
)
    requires
        call_ensures(integrate::prepare_integration, (&c, &result, patch, p), r),
    ensures
        r is Ok <==> if result.kind is NoChange {
            p.head is Ok
        } else {
            &&& c.integration is Some
            &&& p.commit is Ok
            &&& p.parents matches Ok(parents) && parents@.len() == 1 && parents@[0]@
                == c.base_commit@
            &&& p.prepared matches Ok(s) && s.patch@ == patch@ && laws::same_paths(
                s.changed_paths@,
                result.changed_paths@,
            )
        },
        r matches Ok(t) ==> t@ == (if result.kind is NoChange {
            p.head->Ok_0@
        } else {
            p.commit->Ok_0@
        }),
{
    if let Ok(parents) = p.parents {
        lemma_sole(parents@, c.base_commit@);
    }
    if let Ok(s) = p.prepared {
        laws::lemma_same_paths(s.changed_paths@, result.changed_paths@);
    }
}

pub(crate) proof fn lemma_sole(row: Seq<String>, t: Seq<char>)
    ensures
        git::texts(row) == seq![t] <==> row.len() == 1 && row[0]@ == t,
{
    let all = git::texts(row);
    assert(all.len() == row.len());
    if row.len() == 1 {
        assert(all[0] == row[0]@);
        if row[0]@ == t {
            assert(all =~= seq![t]);
        }
        if all == seq![t] {
            assert(seq![t][0] == t);
        }
    } else {
        assert(seq![t].len() == 1);
    }
}

/// Right before it is advanced, a target must still be the one that was
/// journaled: the same repository and Git directory, on the same reference,
/// clean, and at the commit it was at.
pub proof fn law_targets_are_confirmed_before_they_move(
    c: Capsule,
    target: Repository,
    before: &str,
    o: TargetRecheck,
    r: std::result::Result<(), Error>,
)
    requires
        call_ensures(integrate::confirm_target, (&c, &target, before, o), r),
    ensures
        r is Ok <==> {
            &&& o.repository matches Ok(now) && places::same_place(
                now.common_dir.bytes@,
                c.repository_common_dir.bytes@,
            ) && places::same_place(now.git_dir.bytes@, target.git_dir.bytes@)
            &&& c.integration matches Some(i) && (o.head_ref matches Ok(h) && h@
                == i.target_head_ref@)
            &&& o.clean == Ok::<bool, Error>(true)
            &&& o.head matches Ok(h) && h@ == before@
        },
{
    if let Ok(now) = o.repository {
        places::lemma_same_place(now.common_dir.bytes@, c.repository_common_dir.bytes@);
        places::lemma_same_place(now.git_dir.bytes@, target.git_dir.bytes@);
    }
}

/// The proposed commit is journaled before the target moves. A finished
/// integration keeps its journal and says when it finished; one that is given up
/// leaves a closed capsule without one. Nothing else changes.
pub proof fn law_integrations_end_as_journaled(
    c: Capsule,
    proposed: String,
    at: u64,
    prepared: std::result::Result<Capsule, Error>,
    done: std::result::Result<Capsule, Error>,
    given_up: Capsule,
)
    requires
        call_ensures(integrate::record_prepared, (c, proposed, at), prepared),
        call_ensures(integrate::complete_integration, (c, at), done),
        call_ensures(integrate::abort_integration, (c, at), given_up),
    ensures
        prepared is Ok <==> c.integration is Some,
        prepared matches Ok(p) ==> p == (Capsule {
            integration: Some(
                Integration { target_head_after: Some(proposed), ..c.integration->0 },
            ),
            updated_at_unix: at,
            ..c
        }),
        done is Ok <==> c.integration is Some,
        done matches Ok(d) ==> d == (Capsule {
            state: CapsuleState::Integrated,
            integration: Some(Integration { integrated_at_unix: Some(at), ..c.integration->0 }),
            updated_at_unix: at,
            ..c
        }),
        given_up == (Capsule {
            state: CapsuleState::Closed,
            integration: None,
            updated_at_unix: at,
            ..c
        }),
{
}

/// Commits in progress are kept by references of their capsule's own.
pub proof fn law_commits_in_progress_are_kept_by_own_references(
    c: Capsule,
    checkpoint: String,
    integration: String,
)
    requires
        call_ensures(manager::checkpoint_ref, (&c,), checkpoint),
        call_ensures(manager::integration_ref, (&c,), integration),
    ensures
        checkpoint@ == "refs/change-capsule/"@ + c.id@ + "/checkpoint"@,
        integration@ == "refs/change-capsule/"@ + c.id@ + "/integration"@,
{
}

} // verus!
