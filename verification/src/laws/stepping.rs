//! How snapshots are taken and commits are made, command by command.

use vstd::prelude::*;
use vstd::string::*;
use vstd::utf8::*;

use crate::error::Error;
use crate::laws::evidence;
use crate::laws::ignoring;
use crate::laws::reading;
use crate::laws::running;
use crate::runs::{
    CommitRun, CommitStage, CommitStep, GitCall, SnapshotRun, SnapshotSource, SnapshotStage,
    SnapshotStep,
};
use crate::{bytes, commands, git, git_path, laws, record, text};

verus! {

/// What a command reads.
pub open spec fn input_of(c: GitCall) -> Option<Seq<u8>> {
    match c.input {
        Some(b) => Some(b@),
        None => None,
    }
}

/// Whether a call is a command made of words, with what it reads and its bound.
pub open spec fn is_call(
    c: GitCall,
    words: Seq<Seq<char>>,
    input: Option<Seq<u8>>,
    cap: int,
) -> bool {
    running::is_line(c.arguments@, words) && input_of(c) == input && c.cap == cap
}

proof fn lemma_call(c: GitCall, words: Seq<Seq<char>>)
    requires
        bytes::views(c.arguments@) == commands::encoded(words),
    ensures
        running::is_line(c.arguments@, words),
{
    running::lemma_line(c.arguments@, words);
}

/// A snapshot begins at its base: in a private index, or, where it is of a
/// commit, at once with the patch.
pub proof fn law_snapshots_begin_at_their_base(
    base: &str,
    source: SnapshotSource,
    r: SnapshotRun,
)
    requires
        call_ensures(SnapshotRun::start, (base, source), r),
    ensures
        r.base@ == base@,
        r.source == source,
        source is Commit ==> r.stage is Patch,
        !(source is Commit) ==> r.stage is Index,
        r.embedded@.len() == 0 && r.checked == 0 && r.patch@.len() == 0,
{
}

/// A snapshot fills its index from the base, puts the whole change into it, and
/// prints that change from the base: with binary content, in full, and without
/// renames or filters.
pub proof fn law_snapshots_are_of_the_whole_change(run: SnapshotRun, c: GitCall)
    requires
        run.stage is Embedded ==> run.checked < run.embedded@.len(),
        call_ensures(SnapshotRun::call, (&run,), c),
    ensures
        run.stage is Index ==> is_call(c, seq!["read-tree"@, run.base@], None, 1048576),
        run.stage is Fill && !(run.source is Applied) ==> is_call(
            c,
            seq!["add"@, "-A"@, "--"@, "."@],
            None,
            1048576,
        ),
        run.stage is Fill && run.source is Applied ==> is_call(
            c,
            seq!["apply"@, "--cached"@, "--whitespace=nowarn"@, "-"@],
            Some(run.source->Applied_0@),
            1048576,
        ),
        run.stage is Inspect ==> is_call(
            c,
            seq!["diff"@, "--cached"@, "--raw"@, "-z"@, "--no-renames"@, run.base@, "--"@],
            None,
            67108864,
        ),
        run.stage is Embedded ==> is_call(
            c,
            seq![
                "submodule"@,
                "status"@,
                "--cached"@,
                "--"@,
                run.embedded@[run.checked as int]@,
            ],
            None,
            1048576,
        ),
        run.stage is Patch && run.source is Commit ==> is_call(
            c,
            seq![
                "diff"@,
                "--binary"@,
                "--full-index"@,
                "--no-ext-diff"@,
                "--no-textconv"@,
                "--no-renames"@,
                "--no-color"@,
                run.base@,
                run.source->Commit_0@,
                "--"@,
            ],
            None,
            67108864,
        ),
        run.stage is Patch && !(run.source is Commit) ==> is_call(
            c,
            seq![
                "diff"@,
                "--cached"@,
                "--binary"@,
                "--full-index"@,
                "--no-ext-diff"@,
                "--no-textconv"@,
                "--no-renames"@,
                "--no-color"@,
                run.base@,
                "--"@,
            ],
            None,
            67108864,
        ),
        run.stage is Paths && run.source is Commit ==> is_call(
            c,
            seq![
                "diff"@,
                "--name-only"@,
                "-z"@,
                "--no-renames"@,
                run.base@,
                run.source->Commit_0@,
                "--"@,
            ],
            None,
            1048576,
        ),
        run.stage is Paths && !(run.source is Commit) ==> is_call(
            c,
            seq!["diff"@, "--cached"@, "--name-only"@, "-z"@, "--no-renames"@, run.base@, "--"@],
            None,
            1048576,
        ),
{
    assert(bytes::views(c.arguments@) == run.call_of().arguments);
    assert(input_of(c) == run.call_of().input);
    match run.stage {
        SnapshotStage::Index => lemma_call(c, seq!["read-tree"@, run.base@]),
        SnapshotStage::Fill => if run.source is Applied {
            lemma_call(c, seq!["apply"@, "--cached"@, "--whitespace=nowarn"@, "-"@]);
        } else {
            lemma_call(c, seq!["add"@, "-A"@, "--"@, "."@]);
        },
        SnapshotStage::Inspect => lemma_call(
            c,
            seq!["diff"@, "--cached"@, "--raw"@, "-z"@, "--no-renames"@, run.base@, "--"@],
        ),
        SnapshotStage::Embedded => lemma_call(
            c,
            seq![
                "submodule"@,
                "status"@,
                "--cached"@,
                "--"@,
                run.embedded@[run.checked as int]@,
            ],
        ),
        SnapshotStage::Patch => if run.source is Commit {
            lemma_call(
                c,
                seq![
                    "diff"@,
                    "--binary"@,
                    "--full-index"@,
                    "--no-ext-diff"@,
                    "--no-textconv"@,
                    "--no-renames"@,
                    "--no-color"@,
                    run.base@,
                    run.source->Commit_0@,
                    "--"@,
                ],
            );
        } else {
            lemma_call(
                c,
                seq![
                    "diff"@,
                    "--cached"@,
                    "--binary"@,
                    "--full-index"@,
                    "--no-ext-diff"@,
                    "--no-textconv"@,
                    "--no-renames"@,
                    "--no-color"@,
                    run.base@,
                    "--"@,
                ],
            );
        },
        SnapshotStage::Paths => if run.source is Commit {
            lemma_call(
                c,
                seq![
                    "diff"@,
                    "--name-only"@,
                    "-z"@,
                    "--no-renames"@,
                    run.base@,
                    run.source->Commit_0@,
                    "--"@,
                ],
            );
        } else {
            lemma_call(
                c,
                seq![
                    "diff"@,
                    "--cached"@,
                    "--name-only"@,
                    "-z"@,
                    "--no-renames"@,
                    run.base@,
                    "--"@,
                ],
            );
        },
    }
}

/// A snapshot of a worktree is searched for embedded repositories, and each that
/// it touches must be registered. A snapshot goes on only where its command
/// succeeded, keeps its base and source, and ends with the patch and the paths
/// that were printed.
pub proof fn law_snapshots_end_with_what_was_printed(
    run: SnapshotRun,
    outcome: std::result::Result<Vec<u8>, Error>,
    r: std::result::Result<SnapshotStep, Error>,
)
    requires
        run.stage is Embedded ==> run.checked < run.embedded@.len(),
        call_ensures(SnapshotRun::advance, (run, outcome), r),
    ensures
        outcome is Err ==> r is Err,
        outcome is Err && run.stage is Embedded ==> (r matches Err(e) && e is InvalidInput),
        outcome is Ok && !(run.stage is Inspect) ==> r is Ok,
        (r matches Ok(SnapshotStep::Finished(_))) <==> outcome is Ok && run.stage is Paths,
        r matches Ok(SnapshotStep::Finished(s)) ==> {
            let f = reading::fields(outcome->Ok_0@);
            &&& s.patch@ == run.patch@
            &&& s.changed_paths@.len() == f.len()
            &&& forall|i: int|
                0 <= i < f.len() ==> ignoring::stands_for(#[trigger] s.changed_paths@[i], f[i])
        },
        r matches Ok(SnapshotStep::Next(next)) ==> {
            &&& next.base@ == run.base@
            &&& next.source == run.source
            &&& run.stage is Index ==> next.stage is Fill
            &&& run.stage is Fill && run.source is Worktree ==> next.stage is Inspect
            &&& run.stage is Fill && !(run.source is Worktree) ==> next.stage is Patch
            &&& run.stage is Inspect ==> next.checked == 0 && (next.stage is Patch
                <==> next.embedded@.len() == 0) && (next.stage is Embedded
                <==> next.embedded@.len() > 0)
            &&& run.stage is Embedded ==> next.checked == run.checked + 1 && next.embedded
                == run.embedded && (next.stage is Patch <==> next.checked == run.embedded@.len())
                && (next.stage is Embedded <==> next.checked < run.embedded@.len())
            &&& run.stage is Patch ==> next.patch@ == outcome->Ok_0@ && next.stage is Paths
            &&& !(run.stage is Patch) ==> next.patch@ == run.patch@
        },
        run.stage is Inspect && outcome is Ok ==> {
            let f = reading::fields(outcome->Ok_0@);
            &&& r is Ok <==> f.len() % 2 == 0 && forall|k: int|
                0 <= k < f.len() / 2 ==> #[trigger] reading::is_record(f, k)
            &&& r matches Ok(SnapshotStep::Next(next)) ==> exists|at: Seq<int>| #[trigger]
                reading::lists_links(at, f) && next.embedded@.len() == at.len() && forall|i: int|
                    0 <= i < at.len() ==> encode_utf8((#[trigger] next.embedded@[i])@) == f[2
                        * at[i] + 1]
        },
{
    assert(run.embedded.len() <= usize::MAX);
    if let Ok(SnapshotStep::Next(next)) = r {
        assert(git::texts(next.embedded@).len() == next.embedded@.len());
    }
    if let Ok(out) = outcome {
        reading::lemma_fields(out@);
        let f = reading::fields(out@);
        if run.stage is Paths {
            let s = r->Ok_0->Finished_0;
            laws::lemma_views(s.changed_paths@);
            assert(record::views(s.changed_paths@).len() == f.len());
            assert forall|i: int| 0 <= i < f.len() implies ignoring::stands_for(
                #[trigger] s.changed_paths@[i],
                f[i],
            ) by {
                assert(record::views(s.changed_paths@)[i] == git_path::encoding_of(f[i]));
                if valid_utf8(f[i]) {
                    decode_utf8_encode_utf8(f[i]);
                }
            }
        }
        if run.stage is Inspect {
            let at = reading::lemma_links(f);
            if let Ok(SnapshotStep::Next(next)) = r {
                assert forall|i: int| 0 <= i < at.len() implies encode_utf8(
                    (#[trigger] next.embedded@[i])@,
                ) == f[2 * at[i] + 1] by {
                    assert(git::texts(next.embedded@)[i] == decode_utf8(f[2 * at[i] + 1]));
                    assert(reading::is_link(f, at[i]));
                    assert(reading::is_record(f, at[i]));
                    decode_utf8_encode_utf8(f[2 * at[i] + 1]);
                }
                assert(reading::lists_links(at, f));
            }
        }
    }
}

/// A commit is made of its base with the patch applied, on that base alone, and
/// with its message.
pub proof fn law_commits_are_made_of_their_base_and_patch(
    base: &str,
    patch: &[u8],
    message: &str,
    started: CommitRun,
    run: CommitRun,
    c: GitCall,
)
    requires
        call_ensures(CommitRun::start, (base, patch, message), started),
        call_ensures(CommitRun::call, (&run,), c),
    ensures
        started.base@ == base@ && started.patch@ == patch@ && started.message@ == message@
            && started.stage is Index,
        run.stage is Index ==> is_call(c, seq!["read-tree"@, run.base@], None, 1048576),
        run.stage is Apply ==> is_call(
            c,
            seq!["apply"@, "--cached"@, "--3way"@, "--whitespace=nowarn"@, "-"@],
            Some(run.patch@),
            1048576,
        ),
        run.stage is Tree ==> is_call(c, seq!["write-tree"@], None, 1048576),
        run.stage matches CommitStage::Commit(tree) ==> is_call(
            c,
            seq!["commit-tree"@, tree@, "-p"@, run.base@],
            Some(encode_utf8(run.message@)),
            1048576,
        ),
{
    assert(bytes::views(c.arguments@) == run.call_of().arguments);
    assert(input_of(c) == run.call_of().input);
    match run.stage {
        CommitStage::Index => lemma_call(c, seq!["read-tree"@, run.base@]),
        CommitStage::Apply => lemma_call(
            c,
            seq!["apply"@, "--cached"@, "--3way"@, "--whitespace=nowarn"@, "-"@],
        ),
        CommitStage::Tree => lemma_call(c, seq!["write-tree"@]),
        CommitStage::Commit(tree) => lemma_call(
            c,
            seq!["commit-tree"@, tree@, "-p"@, run.base@],
        ),
    }
}

/// A commit goes on only where its command succeeded: the tree that is committed
/// and the commit that comes out are those that were printed.
pub proof fn law_commits_come_out_as_printed(
    run: CommitRun,
    outcome: std::result::Result<Vec<u8>, Error>,
    r: std::result::Result<CommitStep, Error>,
)
    requires
        call_ensures(CommitRun::advance, (run, outcome), r),
    ensures
        outcome is Err ==> r is Err,
        outcome is Ok && (run.stage is Index || run.stage is Apply) ==> r is Ok,
        outcome is Ok && (run.stage is Tree || run.stage is Commit) ==> (r is Ok <==> valid_utf8(
            outcome->Ok_0@,
        )),
        (r matches Ok(CommitStep::Finished(_))) ==> run.stage is Commit,
        r matches Ok(CommitStep::Finished(commit)) ==> evidence::trims(
            decode_utf8(outcome->Ok_0@),
            commit@,
        ),
        r matches Ok(CommitStep::Next(next)) ==> {
            &&& next.base@ == run.base@ && next.patch@ == run.patch@ && next.message@
                == run.message@
            &&& !(run.stage is Commit)
            &&& run.stage is Index ==> next.stage is Apply
            &&& run.stage is Apply ==> next.stage is Tree
            &&& run.stage is Tree ==> (next.stage matches CommitStage::Commit(tree)
                && evidence::trims(decode_utf8(outcome->Ok_0@), tree@))
        },
{
    if let Ok(out) = outcome {
        evidence::lemma_trims(decode_utf8(out@));
    }
}

} // verus!
