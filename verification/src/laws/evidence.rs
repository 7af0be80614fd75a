//! What a verification record says, and what records amount to.

use vstd::prelude::*;
use vstd::string::*;
use vstd::utf8::*;

use crate::error::Error;
use crate::execution::{Execution, Poll};
use crate::git::Snapshot;
use crate::laws::verifying;
use crate::laws::workspaces;
use crate::manager::CapsuleManager;
use crate::model::{Capsule, Evidence};
use crate::options::{EvidenceInput, TimeLimit};
use crate::recording::AttachedEvidence;
use crate::worktree::WorktreeInspection;
use crate::{
    bytes, digest, evidence, execution, git, laws, options, record, recording, text, validate,
};

verus! {

/// The bytes of text that a record holds.
pub open spec fn size_of_record(e: Evidence) -> int {
    encode_utf8(e.command@).len() + (match e.summary {
        Some(s) => encode_utf8(s@).len() as int,
        None => 0,
    })
}

/// The bytes of text that records hold together.
pub open spec fn size_of_records(records: Seq<Evidence>) -> int
    decreases records.len(),
{
    if records.len() == 0 {
        0
    } else {
        size_of_records(records.drop_last()) + size_of_record(records.last())
    }
}

/// Whether a capsule is another with one more record, and nothing else changed
/// but the time of the change.
pub open spec fn is_attached(after: Capsule, before: Capsule, e: Evidence, at: u64) -> bool {
    &&& after == (Capsule { evidence: after.evidence, updated_at_unix: at, ..before })
    &&& after.evidence@.len() == before.evidence@.len() + 1
    &&& laws::same_records(after.evidence@.drop_last(), before.evidence@)
    &&& laws::same_evidence(after.evidence@.last(), e)
}

/// Whether a digest is that of both streams of a run, each behind its length,
/// under the name of what is digested.
pub open spec fn covers(d: Seq<char>, out: Seq<u8>, err: Seq<u8>) -> bool {
    d == verifying::digest_of(
        encode_utf8("change-capsule evidence output v1\0"@) + laws::behind_length(out)
            + laws::behind_length(err),
    )
}

/// Whether a text is another without the white space around it.
pub open spec fn trims(whole: Seq<char>, t: Seq<char>) -> bool {
    exists|a: int, b: int|
        #![trigger whole.subrange(a, b)]
        0 <= a <= b <= whole.len() && t == whole.subrange(a, b) && (forall|i: int|
            0 <= i < a || b <= i < whole.len() ==> laws::is_space(#[trigger] whole[i])) && (t.len()
            > 0 ==> !laws::is_space(t[0]) && !laws::is_space(t.last()))
}

/// The end of what a run printed, as text: of standard error, or of standard
/// output where standard error is empty, without control characters other than
/// line breaks and tabs.
pub open spec fn ending(out: Seq<u8>, err: Seq<u8>) -> Seq<char> {
    let stream = if err.len() == 0 {
        out
    } else {
        err
    };
    let end = if stream.len() <= 4096 {
        stream
    } else {
        stream.skip(stream.len() - 4096)
    };
    digest::lossy_text_of(end).filter(|c: char| !laws::is_control(c) || c == '\n' || c == '\t')
}

/// Whether a summary is the one a run gets where none was supplied: what its
/// output ends with, where that says anything that can be recorded.
pub open spec fn is_default_summary(s: Option<Seq<char>>, out: Seq<u8>, err: Seq<u8>) -> bool {
    exists|t: Seq<char>| #[trigger]
        trims(ending(out, err), t) && s == (if t.len() > 0 && laws::is_text(t, 65536, true) {
            Some(t)
        } else {
            None
        })
}

/// The exit code of a finished process: its status, or 128 plus the signal that
/// ended it, or -1 where neither is known.
pub open spec fn code_of(code: Option<i32>, signal: Option<i32>) -> int {
    match (code, signal) {
        (Some(c), _) => c as int,
        (None, Some(s)) => 128 + s,
        (None, None) => -1,
    }
}

proof fn lemma_sizes(records: Seq<Evidence>)
    ensures
        size_of_records(records) == recording::total_bytes(record::views(records)),
    decreases records.len(),
{
    laws::lemma_views(records);
    if records.len() > 0 {
        lemma_sizes(records.drop_last());
        assert(record::views(records).drop_last() =~= record::views(records.drop_last()));
        assert(record::views(records).last() == records.last()@);
    }
}

proof fn lemma_attached(after: Capsule, before: Capsule, e: Evidence, at: u64)
    requires
        after == (Capsule { evidence: after.evidence, updated_at_unix: at, ..before }),
        record::views(after.evidence@) == record::views(before.evidence@).push(e@),
    ensures
        is_attached(after, before, e, at),
{
    laws::lemma_views(after.evidence@);
    laws::lemma_views(before.evidence@);
    let front = after.evidence@.drop_last();
    laws::lemma_views(front);
    assert forall|i: int| 0 <= i < front.len() implies record::views(front)[i] == record::views(
        before.evidence@,
    )[i] by {
        assert(record::views(after.evidence@)[i] == after.evidence@[i]@);
    }
    assert(record::views(front) =~= record::views(before.evidence@));
    laws::lemma_same_records(front, before.evidence@);
    assert(record::views(after.evidence@).last() == after.evidence@.last()@);
    assert(after.evidence@.last()@ == e@);
}

proof fn lemma_trim_start(t: Seq<char>) -> (a: int)
    ensures
        0 <= a <= t.len(),
        text::trim_start(t) == t.skip(a),
        forall|i: int| 0 <= i < a ==> laws::is_space(#[trigger] t[i]),
        a < t.len() ==> !laws::is_space(t[a]),
    decreases t.len(),
{
    if t.len() > 0 && text::is_whitespace(t[0]) {
        let a = lemma_trim_start(t.skip(1));
        assert(t.skip(1).skip(a) =~= t.skip(a + 1));
        assert forall|i: int| 0 <= i < a + 1 implies laws::is_space(#[trigger] t[i]) by {
            if i > 0 {
                assert(t.skip(1)[i - 1] == t[i]);
            }
        }
        if a + 1 < t.len() {
            assert(t.skip(1)[a] == t[a + 1]);
        }
        a + 1
    } else {
        assert(t.skip(0) =~= t);
        0
    }
}

proof fn lemma_trim_end(t: Seq<char>) -> (b: int)
    ensures
        0 <= b <= t.len(),
        text::trim_end(t) == t.take(b),
        forall|i: int| b <= i < t.len() ==> laws::is_space(#[trigger] t[i]),
        b > 0 ==> !laws::is_space(t[b - 1]),
    decreases t.len(),
{
    if t.len() > 0 && text::is_whitespace(t.last()) {
        let b = lemma_trim_end(t.drop_last());
        assert(t.drop_last().take(b) =~= t.take(b));
        assert forall|i: int| b <= i < t.len() implies laws::is_space(#[trigger] t[i]) by {
            if i < t.len() - 1 {
                assert(t.drop_last()[i] == t[i]);
            }
        }
        if b > 0 {
            assert(t.drop_last()[b - 1] == t[b - 1]);
        }
        b
    } else {
        assert(t.take(t.len() as int) =~= t);
        t.len() as int
    }
}

/// A text has one form without the white space around it.
pub(crate) proof fn lemma_trims_one(whole: Seq<char>, s: Seq<char>, t: Seq<char>)
    requires
        trims(whole, s),
        trims(whole, t),
    ensures
        s == t,
{
    let (a, b) = choose|a: int, b: int|
        #![trigger whole.subrange(a, b)]
        0 <= a <= b <= whole.len() && s == whole.subrange(a, b) && (forall|i: int|
            0 <= i < a || b <= i < whole.len() ==> laws::is_space(#[trigger] whole[i])) && (s.len()
            > 0 ==> !laws::is_space(s[0]) && !laws::is_space(s.last()));
    let (c, d) = choose|a: int, b: int|
        #![trigger whole.subrange(a, b)]
        0 <= a <= b <= whole.len() && t == whole.subrange(a, b) && (forall|i: int|
            0 <= i < a || b <= i < whole.len() ==> laws::is_space(#[trigger] whole[i])) && (t.len()
            > 0 ==> !laws::is_space(t[0]) && !laws::is_space(t.last()));
    if s.len() > 0 {
        assert(s[0] == whole[a] && s.last() == whole[b - 1]);
    }
    if t.len() > 0 {
        assert(t[0] == whole[c] && t.last() == whole[d - 1]);
    }
    assert(s =~= t);
}

pub(crate) proof fn lemma_trims(t: Seq<char>)
    ensures
        trims(t, text::trim(t)),
{
    let a = lemma_trim_start(t);
    let rest = t.skip(a);
    let b = lemma_trim_end(rest);
    assert(rest.take(b) =~= t.subrange(a, a + b));
    assert forall|i: int| 0 <= i < a || a + b <= i < t.len() implies laws::is_space(
        #[trigger] t[i],
    ) by {
        if i >= a + b {
            assert(rest[i - a] == t[i]);
        }
    }
    if b > 0 {
        assert(t.subrange(a, a + b)[0] == t[a]);
        assert(t.subrange(a, a + b).last() == rest[b - 1]);
    }
}

proof fn lemma_ending(out: Seq<u8>, err: Seq<u8>)
    ensures
        execution::tail_of(out, err) == text::trim(ending(out, err)),
{
    let ours = |c: char| !laws::is_control(c) || c == '\n' || c == '\t';
    let theirs = |c: char| execution::is_summary_char(c);
    assert(ours =~= theirs);
}

/// White space is taken off around a text, and nothing else.
pub proof fn law_trimming_takes_white_space_alone(t: &str, r: String)
    requires
        call_ensures(text::trimmed, (t,), r),
    ensures
        trims(t@, r@),
{
    lemma_trims(t@);
}

/// A claim is recorded as it was made, for the patch as it stands: with the
/// command and the exit code claimed, never as executed, and without anything
/// that only a run yields. It is refused exactly where the capsule is not open
/// to change, its text cannot be recorded, or there would be too much of it.
pub proof fn law_claims_are_recorded_as_made(
    m: CapsuleManager,
    id: &str,
    command: String,
    exit_code: i32,
    summary: Option<String>,
    execution: Option<Execution>,
    shown: std::result::Result<Capsule, Error>,
    stored: std::result::Result<Capsule, Error>,
    seen: WorktreeInspection,
    snapshot: std::result::Result<Snapshot, Error>,
    at: u64,
    r: std::result::Result<AttachedEvidence, Error>,
)
    requires
        call_ensures(
            CapsuleManager::add_evidence,
            (
                &m,
                id,
                EvidenceInput::Claim { command, exit_code, summary },
                execution,
                shown,
                stored,
                &seen,
                snapshot,
                at,
            ),
            r,
        ),
    ensures
        r is Ok <==> {
            &&& laws::is_text(command@, 16384, false)
            &&& summary matches Some(s) ==> laws::is_text(s@, 65536, true)
            &&& workspaces::is_open(m.store.root.bytes@, id@, shown, stored, seen)
            &&& stored->Ok_0.evidence@.len() < 64
            &&& size_of_records(stored->Ok_0.evidence@) + encode_utf8(command@).len() + (
            match summary {
                Some(s) => encode_utf8(s@).len() as int,
                None => 0,
            }) <= 262144
            &&& snapshot is Ok
        },
        r matches Ok(done) ==> {
            let e = done.evidence;
            &&& e.command@ == command@
            &&& e.exit_code == exit_code
            &&& !e.executed
            &&& e.output_sha256 is None
            &&& e.output_bytes is None
            &&& laws::opt(e.summary) == laws::opt(summary)
            &&& e.patch_sha256@ == verifying::digest_of(snapshot->Ok_0.patch@)
            &&& e.recorded_at_unix == at
            &&& is_attached(done.capsule, stored->Ok_0, e, at)
        },
{
    laws::lemma_text(command@, 16384, "evidence command"@, false);
    if let Some(s) = summary {
        laws::lemma_text(s@, 65536, "evidence summary"@, true);
    }
    workspaces::lemma_open(m.store.root.bytes@, id@, shown, stored, seen);
    if let Ok(c) = stored {
        lemma_sizes(c.evidence@);
    }
    if let Ok(done) = r {
        lemma_attached(done.capsule, stored->Ok_0, done.evidence, at);
    }
}

/// A run is recorded as it was observed, for the patch as it stands once it has
/// finished: with the exit code of the process, the length and the digest of
/// everything it printed, and a command line that a shell reads back as the
/// arguments it was run with.
pub proof fn law_runs_are_recorded_as_observed(
    m: CapsuleManager,
    id: &str,
    argv: Vec<String>,
    summary: Option<String>,
    timeout: Option<TimeLimit>,
    out: &[u8],
    err: &[u8],
    code: Option<i32>,
    signal: Option<i32>,
    observed: Execution,
    shown: std::result::Result<Capsule, Error>,
    stored: std::result::Result<Capsule, Error>,
    seen: WorktreeInspection,
    snapshot: std::result::Result<Snapshot, Error>,
    at: u64,
    r: std::result::Result<AttachedEvidence, Error>,
)
    requires
        out@.len() + err@.len() <= u64::MAX,
        signal matches Some(s) ==> s <= i32::MAX - 128,
        code_of(code, signal) >= i32::MIN,
        call_ensures(Execution::observe, (out, err, code, signal), Ok(observed)),
        call_ensures(
            CapsuleManager::add_evidence,
            (
                &m,
                id,
                EvidenceInput::Run { argv, summary, timeout },
                Some(observed),
                shown,
                stored,
                &seen,
                snapshot,
                at,
            ),
            r,
        ),
    ensures
        r is Ok ==> workspaces::is_open(m.store.root.bytes@, id@, shown, stored, seen),
        r matches Ok(done) ==> {
            let e = done.evidence;
            let words = options::shell_words(e.command@);
            &&& words.len() == argv@.len()
            &&& forall|i: int| 0 <= i < argv@.len() ==> words[i] == (#[trigger] argv@[i])@
            &&& laws::is_text(e.command@, 16384, false)
            &&& e.exit_code == code_of(code, signal)
            &&& e.executed
            &&& e.output_bytes == Some((out@.len() + err@.len()) as u64)
            &&& e.output_sha256 matches Some(d) && covers(d@, out@, err@)
            &&& match summary {
                Some(s) => laws::opt(e.summary) == Some(s@) && laws::is_text(s@, 65536, true),
                None => is_default_summary(laws::opt(e.summary), out@, err@),
            }
            &&& e.patch_sha256@ == verifying::digest_of(snapshot->Ok_0.patch@)
            &&& e.recorded_at_unix == at
            &&& stored->Ok_0.evidence@.len() < 64
            &&& size_of_records(stored->Ok_0.evidence@) + size_of_record(e) <= 262144
            &&& is_attached(done.capsule, stored->Ok_0, e, at)
        },
{
    workspaces::lemma_open(m.store.root.bytes@, id@, shown, stored, seen);
    if let Ok(done) = r {
        let e = done.evidence;
        let all = git::texts(argv@);
        options::law_command_line_keeps_argument_boundaries(all);
        assert forall|i: int| 0 <= i < argv@.len() implies all[i] == (#[trigger] argv@[i])@ by {}
        laws::lemma_text(e.command@, 16384, "evidence command"@, false);
        if let Some(s) = summary {
            laws::lemma_text(s@, 65536, "evidence summary"@, true);
        }
        laws::lemma_behind_length(out@);
        laws::lemma_behind_length(err@);
        bytes::lemma_assoc(
            encode_utf8("change-capsule evidence output v1\0"@),
            bytes::framed(out@),
            bytes::framed(err@),
        );
        lemma_ending(out@, err@);
        lemma_trims(ending(out@, err@));
        let tail = execution::tail_of(out@, err@);
        laws::lemma_text(tail, 65536, "summary"@, true);
        assert(trims(ending(out@, err@), tail));
        lemma_sizes(stored->Ok_0.evidence@);
        lemma_attached(done.capsule, stored->Ok_0, e, at);
    }
}

/// What a command printed is recorded exactly where it is within 8 MiB, both
/// streams together.
pub proof fn law_output_is_captured_whole_or_not_at_all(
    out: &[u8],
    err: &[u8],
    code: Option<i32>,
    signal: Option<i32>,
    r: std::result::Result<Execution, Error>,
)
    requires
        out@.len() + err@.len() <= u64::MAX,
        signal matches Some(s) ==> s <= i32::MAX - 128,
        call_ensures(Execution::observe, (out, err, code, signal), r),
    ensures
        r is Ok <==> out@.len() + err@.len() <= 8388608,
{
}

/// A command that is still running is killed exactly once it has a deadline and
/// the deadline has passed; until then the gaps between checks double, up to 50
/// milliseconds.
pub proof fn law_running_commands_are_killed_at_their_deadline(
    passed: bool,
    has_deadline: bool,
    limit: u64,
    gap: u64,
    r: Poll,
)
    requires
        gap <= 50,
        call_ensures(execution::poll_running, (passed, has_deadline, limit, gap), r),
    ensures
        r is Kill <==> has_deadline && passed,
        r matches Poll::Sleep { millis, next } ==> millis == gap && next <= 50 && (next == 2 * gap
            || next == 50 && 2 * gap > 50),
{
}

/// The three requirements that can be made of records are tested for what they
/// say: that there are some and all passed, that one passed for a patch, and
/// that one was executed and passed for it. Failures are counted one by one.
pub proof fn law_records_are_judged_one_by_one(
    records: Vec<Evidence>,
    patch_sha256: &str,
    passed: bool,
    current: bool,
    executed: bool,
    failed: usize,
)
    requires
        call_ensures(evidence::every_passed, (&records,), passed),
        call_ensures(evidence::any_current, (&records, patch_sha256), current),
        call_ensures(evidence::any_executed, (&records, patch_sha256), executed),
        call_ensures(evidence::count_failed, (&records,), failed),
    ensures
        passed <==> records@.len() > 0 && forall|i: int|
            0 <= i < records@.len() ==> (#[trigger] records@[i]).exit_code == 0,
        current <==> exists|i: int|
            0 <= i < records@.len() && (#[trigger] records@[i]).exit_code == 0
                && records@[i].patch_sha256@ == patch_sha256@,
        executed <==> exists|i: int|
            0 <= i < records@.len() && (#[trigger] records@[i]).executed && records@[i].exit_code
                == 0 && records@[i].patch_sha256@ == patch_sha256@,
        failed == records@.filter(|e: Evidence| e.exit_code != 0).len(),
{
    verifying::lemma_meets(records@, patch_sha256@, true, false, false);
    verifying::lemma_meets(records@, patch_sha256@, false, true, false);
    verifying::lemma_meets(records@, patch_sha256@, false, false, true);
    verifying::lemma_failed(records@);
}

/// The failed records are those whose command did not exit with zero.
pub proof fn law_failed_records_are_counted(row: Vec<Evidence>, r: usize)
    requires
        call_ensures(crate::evidence::count_failed, (&row,), r),
    ensures
        r == row@.filter(|e: Evidence| e.exit_code != 0).len(),
{
    verifying::lemma_failed(row@);
}

} // verus!
