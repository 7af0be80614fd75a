//! Attaching verification records to an active capsule.
//!
//! A run records what was observed; a claim records a caller's assertion and
//! runs nothing. Either way the record is bound to the complete patch as it
//! stands once the work is done.

use vstd::prelude::*;
use vstd::string::*;

use crate::error::{Error, ErrorView};
use crate::execution::{Execution, ExecutionView};
use crate::git::Snapshot;
use crate::manager::CapsuleManager;
use crate::model::{Capsule, CapsuleState, Evidence, EvidenceView};
use crate::options::EvidenceInput;
use crate::record::Record;
use crate::worktree::WorktreeInspection;
use crate::{checkpoint, digest, error, manager, record, store, text, validate, worktree};

verus! {

/// Longest command line of a record in bytes.
pub const EVIDENCE_COMMAND_CAP: usize = 16384;

/// Longest summary of a record in bytes.
pub const EVIDENCE_SUMMARY_CAP: usize = 65536;

/// Most records a capsule retains.
pub const EVIDENCE_COUNT_CAP: usize = 64;

/// Most bytes of text in a capsule's records together.
pub const EVIDENCE_TOTAL_BYTES_CAP: usize = 262144;

/// What a check of the text of a record to be made says.
pub open spec fn input_check(input: EvidenceInput) -> std::result::Result<(), ErrorView> {
    let command = validate::bounded_text_check(
        input.command_line_of(),
        EVIDENCE_COMMAND_CAP as nat,
        "evidence command"@,
        false,
    );
    if command is Err {
        command
    } else {
        match input.supplied_summary() {
            Some(s) => validate::bounded_text_check(
                s@,
                EVIDENCE_SUMMARY_CAP as nat,
                "evidence summary"@,
                true,
            ),
            None => Ok(()),
        }
    }
}

/// Refuse a command line or summary that cannot be recorded.
pub fn validate_evidence_input(input: &EvidenceInput) -> (r: std::result::Result<(), Error>)
    ensures
        error::outcome(r) == input_check(*input),
{
    match validate::validate_bounded_text(
        input.command_line().as_str(),
        EVIDENCE_COMMAND_CAP,
        "evidence command",
        false,
    ) {
        Err(e) => {
            return Err(e);
        },
        Ok(_) => {},
    }
    let summary = match input {
        EvidenceInput::Run { summary, .. } => summary,
        EvidenceInput::Claim { summary, .. } => summary,
    };
    match summary {
        Some(s) => validate::validate_bounded_text(
            s.as_str(),
            EVIDENCE_SUMMARY_CAP,
            "evidence summary",
            true,
        ),
        None => Ok(()),
    }
}

/// The summary of a record: the one supplied; otherwise, for a run, the end of
/// its output where there is any that can be recorded.
pub open spec fn summary_of(input: EvidenceInput, execution: Option<ExecutionView>) -> Option<
    Seq<char>,
> {
    match input.supplied_summary() {
        Some(s) => Some(s@),
        None => match execution {
            Some(e) => if input is Run && e.tail.len() > 0 && validate::bounded_text_check(
                e.tail,
                EVIDENCE_SUMMARY_CAP as nat,
                "summary"@,
                true,
            ) is Ok {
                Some(e.tail)
            } else {
                None
            },
            None => None,
        },
    }
}

/// The bytes of text that a record holds.
pub open spec fn text_bytes(e: EvidenceView) -> nat {
    validate::byte_len(e.command) + match e.summary {
        Some(s) => validate::byte_len(s),
        None => 0,
    }
}

/// The bytes of text that a row of records holds.
pub open spec fn total_bytes(records: Seq<EvidenceView>) -> nat
    decreases records.len(),
{
    if records.len() == 0 {
        0
    } else {
        total_bytes(records.drop_last()) + text_bytes(records.last())
    }
}

/// The record that an input and what was observed make, bound to a patch.
pub open spec fn evidence_of(
    input: EvidenceInput,
    execution: Option<ExecutionView>,
    patch: Seq<u8>,
    recorded_at: u64,
) -> EvidenceView {
    match input {
        EvidenceInput::Run { .. } => EvidenceView {
            command: input.command_line_of(),
            exit_code: execution->0.exit_code,
            executed: true,
            output_sha256: Some(execution->0.output_sha256),
            output_bytes: Some(execution->0.output_bytes),
            summary: summary_of(input, execution),
            patch_sha256: digest::sha256_hex_of(patch),
            recorded_at_unix: recorded_at,
        },
        EvidenceInput::Claim { exit_code, .. } => EvidenceView {
            command: input.command_line_of(),
            exit_code,
            executed: false,
            output_sha256: None,
            output_bytes: None,
            summary: summary_of(input, execution),
            patch_sha256: digest::sha256_hex_of(patch),
            recorded_at_unix: recorded_at,
        },
    }
}

/// What was observed when an input's command was run, if it was.
pub open spec fn observed_of(execution: Option<Execution>) -> Option<ExecutionView> {
    match execution {
        Some(e) => Some(e@),
        None => None,
    }
}

/// What admitting a run says.
pub open spec fn run_check(
    root: Seq<u8>,
    id: Seq<char>,
    shown: std::result::Result<Capsule, Error>,
    inspection: WorktreeInspection,
) -> std::result::Result<(), ErrorView> {
    if manager::show_check(root, id, shown) is Err {
        manager::show_check(root, id, shown)
    } else if !(shown->Ok_0.state is Active) {
        Err(manager::state_error(shown->Ok_0, "active"@))
    } else {
        worktree::ownership_check(shown->Ok_0, inspection)
    }
}

/// What attaching a record says.
pub open spec fn record_check(
    root: Seq<u8>,
    id: Seq<char>,
    input: EvidenceInput,
    execution: Option<ExecutionView>,
    shown: std::result::Result<Capsule, Error>,
    stored: std::result::Result<Capsule, Error>,
    inspection: WorktreeInspection,
    snapshot: std::result::Result<Snapshot, Error>,
) -> std::result::Result<(), ErrorView> {
    if input_check(input) is Err {
        input_check(input)
    } else if checkpoint::active_check(root, id, shown, stored, inspection) is Err {
        checkpoint::active_check(root, id, shown, stored, inspection)
    } else if stored->Ok_0.evidence@.len() >= EVIDENCE_COUNT_CAP {
        Err(
            ErrorView::InvalidInput(
                "a capsule retains at most "@ + text::decimal(EVIDENCE_COUNT_CAP as nat)
                    + " evidence records"@,
            ),
        )
    } else if total_bytes(record::views(stored->Ok_0.evidence@)) + validate::byte_len(
        input.command_line_of(),
    ) + (match summary_of(input, execution) {
        Some(s) => validate::byte_len(s),
        None => 0,
    }) > EVIDENCE_TOTAL_BYTES_CAP {
        Err(
            ErrorView::InvalidInput(
                "total evidence payload would exceed the "@ + text::decimal(
                    EVIDENCE_TOTAL_BYTES_CAP as nat,
                ) + "-byte capsule bound"@,
            ),
        )
    } else {
        match snapshot {
            Err(e) => Err(e@),
            Ok(_) => Ok(()),
        }
    }
}

/// Whether a row of records holds more text than allowed together with more.
fn exceeds_total(records: &Vec<Evidence>, more: usize) -> (r: bool)
    ensures
        r == (total_bytes(record::views(records@)) + more > EVIDENCE_TOTAL_BYTES_CAP),
{
    let ghost all = record::views(records@);
    if more > EVIDENCE_TOTAL_BYTES_CAP {
        return true;
    }
    let mut sum: usize = more;
    let mut i: usize = 0;
    proof {
        assert(all.take(0) =~= Seq::<EvidenceView>::empty());
    }
    while i < records.len()
        invariant
            i <= records.len(),
            all == record::views(records@),
            sum == total_bytes(all.take(i as int)) + more,
            sum <= EVIDENCE_TOTAL_BYTES_CAP,
        decreases records.len() - i,
    {
        let command = records[i].command.as_str().as_bytes().len();
        let summary: usize = match &records[i].summary {
            Some(s) => s.as_str().as_bytes().len(),
            None => 0,
        };
        proof {
            assert(all.take(i + 1).drop_last() =~= all.take(i as int));
            assert(all.take(i + 1).last() == records@[i as int]@);
            assert(text_bytes(records@[i as int]@) == command + summary);
            lemma_prefix_total(all, i + 1);
        }
        if command > EVIDENCE_TOTAL_BYTES_CAP || summary > EVIDENCE_TOTAL_BYTES_CAP {
            return true;
        }
        sum = sum + command + summary;
        if sum > EVIDENCE_TOTAL_BYTES_CAP {
            return true;
        }
        i += 1;
    }
    proof {
        assert(all.take(all.len() as int) =~= all);
    }
    false
}

proof fn lemma_prefix_total(all: Seq<EvidenceView>, n: int)
    requires
        0 <= n <= all.len(),
    ensures
        total_bytes(all.take(n)) <= total_bytes(all),
    decreases all.len() - n,
{
    if n < all.len() {
        lemma_prefix_total(all, n + 1);
        assert(all.take(n + 1).drop_last() =~= all.take(n));
    } else {
        assert(all.take(n) =~= all);
    }
}

/// A record attached to a capsule. Before it is stored, the capsule's encoding
/// must prove to fit: text can grow when it is encoded.
#[derive(Debug, PartialEq, Eq)]
pub struct AttachedEvidence {
    /// The capsule with the record.
    pub capsule: Capsule,
    /// The record.
    pub evidence: Evidence,
}

fn chosen_summary(input: EvidenceInput, execution: &Option<Execution>) -> (r: Option<String>)
    ensures
        text::opt_view(r) == summary_of(input, observed_of(*execution)),
{
    let run = match &input {
        EvidenceInput::Run { .. } => true,
        EvidenceInput::Claim { .. } => false,
    };
    let supplied = match input {
        EvidenceInput::Run { summary, .. } => summary,
        EvidenceInput::Claim { summary, .. } => summary,
    };
    if supplied.is_some() {
        return supplied;
    }
    if !run {
        return None;
    }
    match execution {
        None => None,
        Some(e) => {
            let tail = e.tail();
            if !tail.as_str().is_empty() && validate::validate_bounded_text(
                tail.as_str(),
                EVIDENCE_SUMMARY_CAP,
                "summary",
                true,
            ).is_ok() {
                Some(tail)
            } else {
                None
            }
        },
    }
}

impl CapsuleManager {
    /// Admit running a command in a capsule's workspace, before any lock is
    /// held: a test suite can run for minutes.
    pub fn admit_run(
        &self,
        id: &str,
        shown: std::result::Result<Capsule, Error>,
        inspection: &WorktreeInspection,
    ) -> (r: std::result::Result<Capsule, Error>)
        ensures
            match run_check(self.store.root@, id@, shown, *inspection) {
                Err(e) => r matches Err(found) && found@ == e,
                Ok(_) => r == shown,
            },
    {
        let capsule = match self.show(id, shown) {
            Err(e) => {
                return Err(e);
            },
            Ok(c) => c,
        };
        match manager::require_state(&capsule, CapsuleState::Active, "active") {
            Err(e) => {
                return Err(e);
            },
            Ok(_) => {},
        }
        match worktree::validate_owned_worktree(&capsule, inspection) {
            Err(e) => Err(e),
            Ok(_) => Ok(capsule),
        }
    }

    /// Attach a verification record to an active capsule.
    ///
    /// `execution` is what was observed when the input's command was run; only
    /// running a command yields one. The record is bound to the patch as it
    /// stands now: a command may itself have changed the tree, and the binding
    /// must describe what would be sealed after the run.
    pub fn add_evidence(
        &self,
        id: &str,
        input: EvidenceInput,
        execution: Option<Execution>,
        shown: std::result::Result<Capsule, Error>,
        stored: std::result::Result<Capsule, Error>,
        inspection: &WorktreeInspection,
        snapshot: std::result::Result<Snapshot, Error>,
        recorded_at: u64,
    ) -> (r: std::result::Result<AttachedEvidence, Error>)
        requires
            input is Run ==> execution is Some,
        ensures
            match record_check(
                self.store.root@,
                id@,
                input,
                observed_of(execution),
                shown,
                stored,
                *inspection,
                snapshot,
            ) {
                Err(e) => r matches Err(found) && found@ == e,
                Ok(_) => r matches Ok(done) && done.evidence@ == evidence_of(
                    input,
                    observed_of(execution),
                    snapshot->Ok_0@.patch,
                    recorded_at,
                ) && store::is_coherent(done.evidence@) && done.capsule == (Capsule {
                    evidence: done.capsule.evidence,
                    updated_at_unix: recorded_at,
                    ..stored->Ok_0
                }) && record::views(done.capsule.evidence@) == record::views(
                    stored->Ok_0.evidence@,
                ).push(done.evidence@),
            },
    {
        match validate_evidence_input(&input) {
            Err(e) => {
                return Err(e);
            },
            Ok(_) => {},
        }
        let mut capsule = match self.reread_active(id, shown, stored, inspection) {
            Err(e) => {
                return Err(e);
            },
            Ok(c) => c,
        };
        if capsule.evidence.len() >= EVIDENCE_COUNT_CAP {
            return Err(
                Error::InvalidInput(
                    text::cat3(
                        "a capsule retains at most ",
                        text::decimal_text(EVIDENCE_COUNT_CAP as u64).as_str(),
                        " evidence records",
                    ),
                ),
            );
        }
        let command = input.command_line();
        let claimed: Option<i32> = match &input {
            EvidenceInput::Claim { exit_code, .. } => Some(*exit_code),
            EvidenceInput::Run { .. } => None,
        };
        let summary = chosen_summary(input, &execution);
        let summary_bytes: usize = match &summary {
            Some(s) => s.as_str().as_bytes().len(),
            None => 0,
        };
        let command_bytes = command.as_str().as_bytes().len();
        let too_much = summary_bytes > EVIDENCE_TOTAL_BYTES_CAP || exceeds_total(
            &capsule.evidence,
            command_bytes + summary_bytes,
        );
        if too_much {
            return Err(
                Error::InvalidInput(
                    text::cat3(
                        "total evidence payload would exceed the ",
                        text::decimal_text(EVIDENCE_TOTAL_BYTES_CAP as u64).as_str(),
                        "-byte capsule bound",
                    ),
                ),
            );
        }
        let snapshot = match snapshot {
            Err(e) => {
                return Err(e);
            },
            Ok(s) => s,
        };
        let patch_sha256 = digest::sha256_hex(snapshot.patch.as_slice());
        proof {
            digest::lemma_hex_of_is_lower(digest::sha256_of(snapshot.patch@)@);
        }
        let evidence = match (claimed, execution) {
            (None, Some(e)) => Evidence {
                command,
                exit_code: e.exit_code(),
                executed: true,
                output_sha256: Some(e.output_sha256()),
                output_bytes: Some(e.output_bytes()),
                summary,
                patch_sha256,
                recorded_at_unix: recorded_at,
            },
            (exit_code, _) => Evidence {
                command,
                exit_code: match exit_code {
                    Some(code) => code,
                    None => -1,
                },
                executed: false,
                output_sha256: None,
                output_bytes: None,
                summary,
                patch_sha256,
                recorded_at_unix: recorded_at,
            },
        };
        let ghost held = evidence@;
        let ghost before = capsule.evidence@;
        capsule.evidence.push(evidence.copy());
        capsule.updated_at_unix = recorded_at;
        proof {
            assert(record::views(capsule.evidence@) =~= record::views(before).push(held));
        }
        Ok(AttachedEvidence { capsule, evidence })
    }
}

/// Only running a command makes a record that counts as executed: a claim is
/// never recorded as executed, whatever it claims, and a run always carries the
/// exit code and output digest that were observed.
pub proof fn law_only_runs_are_recorded_as_executed(
    input: EvidenceInput,
    execution: Option<ExecutionView>,
    patch: Seq<u8>,
    recorded_at: u64,
)
    requires
        input is Run ==> execution is Some,
    ensures
        evidence_of(input, execution, patch, recorded_at).executed <==> input is Run,
        input is Run ==> {
            let e = evidence_of(input, execution, patch, recorded_at);
            &&& e.exit_code == execution->0.exit_code
            &&& e.output_sha256 == Some(execution->0.output_sha256)
            &&& e.output_bytes == Some(execution->0.output_bytes)
        },
        evidence_of(input, execution, patch, recorded_at).patch_sha256 == digest::sha256_hex_of(
            patch,
        ),
{
}

} // verus!
