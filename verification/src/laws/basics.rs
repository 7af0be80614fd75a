//! The small tests and conversions that everything else is made of.

use vstd::prelude::*;
use vstd::string::*;

use crate::artifacts::{PublishedArtifact, SealedArtifacts, StoredResult};
use crate::checkpoint::CheckpointMoves;
use crate::error::{Error, IoFault};
use crate::laws;
use crate::laws::{inputs, refusing, sealing};
use crate::manager::CapsuleManager;
use crate::model::{
    ArtifactDescriptor, Capsule, CapsuleResult, CheckpointJournal, VerificationReport,
};
use crate::options::EvidenceInput;
use crate::order::Ordered;
use crate::paths::NativePath;
use crate::steps::Step;
use crate::verify::{Receipt, RepositoryReads, VerifyOptions};
use crate::{
    artifacts, audit, create, digest, error, execution, git, manager, options, order, record,
    recording, steps, store, text, validate, verify,
};

verus! {

/// Texts are compared character by character, a prefix is taken off only where
/// it stands, and a text is blank where it holds nothing but white space.
pub proof fn law_texts_are_read_literally(
    a: &str,
    b: &str,
    c: char,
    same: bool,
    held: bool,
    rest: Option<String>,
    blank: bool,
    control: bool,
    white: bool,
)
    requires
        call_ensures(text::same_text, (a, b), same),
        call_ensures(text::contains_char, (a, c), held),
        call_ensures(text::strip_prefix, (a, b), rest),
        call_ensures(text::blank, (a,), blank),
        call_ensures(text::control, (c,), control),
        call_ensures(text::whitespace, (c,), white),
    ensures
        same <==> a@ == b@,
        held <==> exists|i: int| 0 <= i < a@.len() && #[trigger] a@[i] == c,
        rest is Some <==> a@.len() >= b@.len() && forall|i: int|
            0 <= i < b@.len() ==> #[trigger] a@[i] == b@[i],
        rest matches Some(t) ==> b@ + t@ == a@,
        blank <==> forall|i: int| 0 <= i < a@.len() ==> laws::is_space(#[trigger] a@[i]),
        control <==> laws::is_control(c),
        white <==> laws::is_space(c),
{
    if a@.len() >= b@.len() && (forall|i: int| 0 <= i < b@.len() ==> #[trigger] a@[i] == b@[i]) {
        assert(a@.take(b@.len() as int) =~= b@);
    }
    if rest is Some {
        assert forall|i: int| 0 <= i < b@.len() implies #[trigger] a@[i] == b@[i] by {
            assert(a@.take(b@.len() as int)[i] == a@[i]);
        }
    }
    assert forall|i: int| 0 <= i < a@.len() implies text::is_whitespace(#[trigger] a@[i])
        == laws::is_space(a@[i]) by {}
    if forall|i: int| 0 <= i < a@.len() ==> laws::is_space(#[trigger] a@[i]) {
        assert forall|i: int| 0 <= i < a@.len() implies text::is_whitespace(#[trigger] a@[i]) by {}
    }
}

/// Lowercase hexadecimal text with an even number of digits is read as the
/// bytes that are written that way, and nothing else is read at all.
pub proof fn law_hexadecimal_is_read_as_it_is_written(
    t: &str,
    n: Option<usize>,
    b: Option<Vec<u8>>,
    message: &[u8],
    d: String,
)
    requires
        call_ensures(digest::lower_hex_len, (t,), n),
        call_ensures(digest::unhex_text, (t,), b),
        call_ensures(digest::sha256_hex, (message,), d),
    ensures
        n is Some <==> laws::is_hex(t@),
        n matches Some(k) ==> k == t@.len(),
        b is Some <==> laws::is_hex(t@) && t@.len() % 2 == 0,
        b matches Some(v) ==> digest::hex_of(v@) == t@,
        d@ == digest::hex_of(digest::sha256_of(message@)@),
{
    assert(laws::is_hex(t@) <==> digest::all_lower_hex(t@)) by {
        if digest::all_lower_hex(t@) {
            assert forall|i: int| 0 <= i < t@.len() implies '0' <= #[trigger] t@[i] <= '9' || 'a'
                <= t@[i] <= 'f' by {
                assert(digest::is_lower_hex(t@[i]));
            }
        }
    }
    if b is Some {
        digest::lemma_hex_of_unhex(t@);
    }
}

/// Which names, keys and digests are well formed, and what is said otherwise.
pub proof fn law_keys_are_tested_for_their_shape(
    t: &str,
    label: &str,
    lines: bool,
    link: bool,
    project: std::result::Result<(), Error>,
    sum: std::result::Result<(), Error>,
    control: bool,
)
    requires
        call_ensures(validate::valid_link_key, (t,), link),
        call_ensures(validate::validate_project_key, (t,), project),
        call_ensures(validate::validate_sha256, (t, label), sum),
        call_ensures(validate::forbidden_control, (t, lines), control),
    ensures
        link <==> inputs::is_link_key(t@),
        project is Ok <==> t@.len() == 24 && forall|i: int|
            0 <= i < t@.len() ==> '0' <= #[trigger] t@[i] <= '9' || 'a' <= t@[i] <= 'f' || 'A'
                <= t@[i] <= 'F',
        project matches Err(e) ==> e matches Error::UnsafeState(m) && m@ == "invalid project key: "@
            + t@,
        sum is Ok <==> laws::is_digest(t@),
        sum matches Err(e) ==> e matches Error::UnsafeState(m) && m@ == "invalid "@ + label@,
        control <==> exists|i: int|
            0 <= i < t@.len() && laws::is_control(#[trigger] t@[i]) && (!lines || t@[i] != '\n'
                && t@[i] != '\t'),
{
    laws::lemma_shapes(t@);
    inputs::lemma_link_key(t@);
    assert(error::outcome(project) == validate::project_key_check(t@));
    if project is Ok {
        assert forall|i: int| 0 <= i < t@.len() implies '0' <= #[trigger] t@[i] <= '9' || 'a'
            <= t@[i] <= 'f' || 'A' <= t@[i] <= 'F' by {
            assert(validate::is_hex_digit(t@[i]));
        }
    }
    if validate::has_forbidden_control(t@, lines) {
        let i = choose|i: int|
            0 <= i < t@.len() && text::is_control(#[trigger] t@[i]) && !(lines && (t@[i] == '\n'
                || t@[i] == '\t'));
        assert(laws::is_control(t@[i]));
    }
}

/// A command ended with its code, or with 128 and its signal, or with -1; there
/// must be a command.
pub proof fn law_commands_end_with_a_code(
    code: Option<i32>,
    signal: Option<i32>,
    r: i32,
    argv: Vec<String>,
    given: std::result::Result<(), Error>,
)
    requires
        signal matches Some(s) ==> s <= i32::MAX - 128,
        call_ensures(execution::exit_code, (code, signal), r),
        call_ensures(execution::check_command, (&argv,), given),
    ensures
        code is Some ==> r == code->0,
        code is None && signal is Some ==> r == 128 + signal->0,
        code is None && signal is None ==> r == -1,
        given is Ok <==> argv@.len() > 0,
        given matches Err(e) ==> e matches Error::InvalidInput(m) && m@
            == "a command to run must not be empty"@,
{
}

/// An artifact that is gone or does not read as one has drifted, a record that
/// is gone was never there, and every other error stays what it is.
pub proof fn law_missing_things_are_named(id: &str, e: Error, artifact: Error, record: Error)
    requires
        call_ensures(artifacts::artifact_error, (id, e), artifact),
        call_ensures(manager::not_found, (id, e), record),
    ensures
        ({
            let gone = e matches Error::Io { fault, .. } && fault == IoFault::NotFound;
            &&& (gone || e is Json || e is UnsafeState || e is SchemaVersion) ==> (
            artifact matches Error::ResultDrift(t) && t@ == id@)
            &&& !(gone || e is Json || e is UnsafeState || e is SchemaVersion)
                ==> refusing::same_error(artifact, e)
            &&& gone ==> (record matches Error::NotFound(t) && t@ == id@)
            &&& !gone ==> refusing::same_error(record, e)
        }),
{
    refusing::lemma_same_error(artifact, e);
    refusing::lemma_same_error(record, e);
}

/// Sealed artifacts are handed out as they were read, told apart by whether
/// they are the ones that were sealed; intact ones only where they are.
pub proof fn law_sealed_artifacts_are_handed_out_as_read(
    m: CapsuleManager,
    c: Capsule,
    stored: std::result::Result<StoredResult, Error>,
    patch: std::result::Result<Vec<u8>, Error>,
    sealed: std::result::Result<SealedArtifacts, Error>,
    intact: std::result::Result<SealedArtifacts, Error>,
)
    requires
        call_ensures(CapsuleManager::sealed_artifacts, (&m, &c, stored, patch), sealed),
        call_ensures(CapsuleManager::intact_artifacts, (&m, &c, stored, patch), intact),
    ensures
        sealed is Ok <==> sealing::is_sealed(c, stored, patch),
        intact is Ok <==> sealing::is_intact(c, stored, patch),
        sealed matches Ok(s) ==> {
            &&& s.result == stored->Ok_0.result
            &&& s.content == stored->Ok_0.content
            &&& s.patch == patch->Ok_0
            &&& s.matches_seal <==> sealing::is_intact(c, stored, patch)
        },
        intact matches Ok(s) ==> {
            &&& s.result == stored->Ok_0.result
            &&& s.content == stored->Ok_0.content
            &&& s.patch == patch->Ok_0
            &&& s.matches_seal
        },
        sealing::is_sealed(c, stored, patch) && !sealing::is_intact(c, stored, patch) ==> (
        intact matches Err(Error::ResultDrift(t)) && t@ == c.id@),
{
    sealing::lemma_intact(c, stored, patch);
    if sealing::is_sealed(c, stored, patch) {
        sealing::lemma_seal_fits(c, stored->Ok_0.result, stored->Ok_0.encoded@, patch->Ok_0@);
    }
}

/// A sink's answer adds one artifact behind those already published, and its
/// refusal is passed on.
pub proof fn law_answers_are_taken_in_order(
    published: Vec<PublishedArtifact>,
    d: ArtifactDescriptor,
    answer: std::result::Result<String, Error>,
    r: std::result::Result<Vec<PublishedArtifact>, Error>,
)
    requires
        call_ensures(artifacts::accept_answer, (published, d, answer), r),
    ensures
        r is Ok <==> answer is Ok,
        r matches Ok(more) ==> {
            &&& more@.len() == published@.len() + 1
            &&& forall|i: int| 0 <= i < published@.len() ==> #[trigger] more@[i] == published@[i]
            &&& more@.last().descriptor == d
            &&& more@.last().uri == answer->Ok_0
        },
        r matches Err(e) ==> e == answer->Err_0,
{
}

/// A document declares the version that stands in it where that fits, and no
/// version otherwise.
pub proof fn law_versions_are_declared_in_the_document(
    document: &[u8],
    r: std::result::Result<Option<u32>, String>,
)
    requires
        call_ensures(store::declared_version, (document,), r),
    ensures
        r is Ok <==> store::json_number_of(document@, "schema_version"@) is Ok,
        r matches Ok(v) ==> {
            let n = store::json_number_of(document@, "schema_version"@)->Ok_0;
            &&& v is Some <==> n is Some && n->0 <= 0xffff_ffff
            &&& v is Some ==> v->0 == n->0
        },
        r matches Err(m) ==> m@ == store::json_number_of(document@, "schema_version"@)->Err_0,
{
}

/// An event is named by its ULID in small letters.
pub proof fn law_events_are_named_by_their_ulid(ulid: &str, r: String)
    requires
        call_ensures(audit::event_id_of, (ulid,), r),
    ensures
        r@.len() == ulid@.len() + 4,
        r@.take(4) == "evt-"@,
        forall|i: int|
            0 <= i < ulid@.len() ==> #[trigger] r@[i + 4] == (if 'A' <= ulid@[i] <= 'Z' {
                (ulid@[i] as u32 + 32) as char
            } else {
                ulid@[i]
            }),
{
    reveal_strlit("evt-");
    assert("evt-"@.len() == 4);
    assert(r@.take(4) =~= "evt-"@);
    assert forall|i: int| 0 <= i < ulid@.len() implies #[trigger] r@[i + 4] == (if 'A' <= ulid@[i]
        <= 'Z' {
        (ulid@[i] as u32 + 32) as char
    } else {
        ulid@[i]
    }) by {
        assert(r@[i + 4] == create::lowered(ulid@)[i]);
    }
}

/// Sorting keeps what there was, and nothing is left standing behind what it
/// belongs before.
pub proof fn law_sorting_keeps_and_orders<T: Ordered>(rows: Vec<T>, r: Vec<T>)
    requires
        forall|a: T, b: T| #[trigger] a.precedes(b) ==> !b.precedes(a),
        forall|a: T, b: T, c: T|
            !(#[trigger] b.precedes(a)) && !(#[trigger] c.precedes(b)) ==> !c.precedes(a),
        call_ensures(order::sort::<T>, (rows,), r),
    ensures
        r@.to_multiset() == rows@.to_multiset(),
        forall|i: int, j: int|
            0 <= i < j < r@.len() ==> !(#[trigger] r@[j]).precedes(#[trigger] r@[i]),
{
    order::lemma_sorted_is_permutation(rows@);
    order::lemma_sorted_in_order(rows@);
}

/// The branch has moved before the index follows it.
pub proof fn law_branches_move_before_the_index(
    moves: CheckpointMoves,
    j: CheckpointJournal,
    finished: Vec<Step>,
)
    requires
        call_ensures(steps::finish_checkpoint, (moves, &j), finished),
    ensures
        forall|a: int, b: int|
            0 <= a < finished@.len() && 0 <= b < finished@.len() && (
            #[trigger] finished@[a]) is AdvanceBranch && (#[trigger] finished@[b]) is ResetIndex
                ==> a < b,
{
    laws::lemma_views(finished@);
    assert forall|a: int, b: int|
        0 <= a < finished@.len() && 0 <= b < finished@.len() && (
        #[trigger] finished@[a]) is AdvanceBranch && (
        #[trigger] finished@[b]) is ResetIndex implies a < b by {
        assert(record::views(finished@)[a] == finished@[a]@);
        assert(record::views(finished@)[b] == finished@[b]@);
    }
}

/// A commit identity needs a usable name and a usable address with an `@`.
pub proof fn law_authors_need_a_name_and_an_address(
    name: &str,
    email: &str,
    r: std::result::Result<(), Error>,
)
    requires
        call_ensures(validate::validate_author, (name, email), r),
    ensures
        r is Ok <==> laws::is_text(name@, 256, false) && laws::is_text(email@, 512, false)
            && exists|i: int| 0 <= i < email@.len() && #[trigger] email@[i] == '@',
        r matches Err(e) ==> e is InvalidInput,
{
    laws::lemma_text(name@, 256, "author name"@, false);
    laws::lemma_text(email@, 512, "author email"@, false);
    assert(error::outcome(r) == validate::author_check(name@, email@));
}

/// Evidence can be recorded where its command line and the summary supplied
/// with it can; a command line reads back as the arguments that were given.
pub proof fn law_evidence_is_tested_as_it_is_recorded(
    input: EvidenceInput,
    line: String,
    r: std::result::Result<(), Error>,
)
    requires
        call_ensures(EvidenceInput::command_line, (&input,), line),
        call_ensures(recording::validate_evidence_input, (&input,), r),
    ensures
        match input {
            EvidenceInput::Run { argv, summary, .. } => {
                let words = options::shell_words(line@);
                &&& words.len() == argv@.len()
                &&& forall|i: int| 0 <= i < argv@.len() ==> words[i] == (#[trigger] argv@[i])@
                &&& r is Ok <==> laws::is_text(line@, 16384, false) && (summary matches Some(s)
                    ==> laws::is_text(s@, 65536, true))
            },
            EvidenceInput::Claim { command, summary, .. } => {
                &&& line@ == command@
                &&& r is Ok <==> laws::is_text(command@, 16384, false) && (summary matches Some(s)
                    ==> laws::is_text(s@, 65536, true))
            },
        },
        r matches Err(e) ==> e is InvalidInput,
{
    laws::lemma_text(line@, 16384, "evidence command"@, false);
    assert(error::outcome(r) == recording::input_check(input));
    if let Some(s) = input.supplied_summary() {
        laws::lemma_text(s@, 65536, "evidence summary"@, true);
    }
    if let EvidenceInput::Run { argv, .. } = input {
        options::law_command_line_keeps_argument_boundaries(git::texts(argv@));
    }
}

/// A manager opened without a root keeps its state where the environment says.
pub proof fn law_managers_open_where_the_environment_says(
    capsule_home: Option<NativePath>,
    state_home: Option<NativePath>,
    home: Option<NativePath>,
    opened: std::result::Result<CapsuleManager, Error>,
    root: std::result::Result<NativePath, Error>,
)
    requires
        call_ensures(CapsuleManager::open_default, (capsule_home, state_home, home), opened),
        call_ensures(store::default_state_root, (capsule_home, state_home, home), root),
    ensures
        opened is Ok <==> root is Ok,
        opened matches Ok(m) ==> m.store.root.bytes@ == root->Ok_0.bytes@,
        opened matches Err(e) ==> refusing::same_error(e, root->Err_0),
{
    if opened is Err && root is Err {
        refusing::lemma_same_error(opened->Err_0, root->Err_0);
    }
}

/// Verifying a receipt, with its result handed back or without, comes to the
/// same end, and the result handed back is the one that was read.
pub proof fn law_verified_results_are_those_of_the_receipt(
    directory: NativePath,
    receipt: Receipt,
    options: VerifyOptions,
    reads: RepositoryReads,
    full: std::result::Result<(VerificationReport, CapsuleResult), Error>,
    read: std::result::Result<(VerificationReport, CapsuleResult), Error>,
    plain: std::result::Result<VerificationReport, Error>,
)
    requires
        call_ensures(
            verify::verify_bundle_snapshot_full,
            (&directory, receipt, &options, &reads),
            full,
        ),
        call_ensures(verify::verified_bundle_result, (&directory, receipt, &options, &reads), read),
        call_ensures(verify::verify_bundle, (&directory, receipt, &options, &reads), plain),
    ensures
        read is Ok <==> plain is Ok,
        read is Ok <==> full is Ok && receipt.bundle_bytes is Ok,
        read matches Ok(done) ==> receipt.result == Ok::<CapsuleResult, String>(done.1),
        full matches Ok(done) ==> receipt.result == Ok::<CapsuleResult, String>(done.1),
        read matches Ok(done) ==> {
            &&& done.0.capsule_id@ == plain->Ok_0.capsule_id@
            &&& done.0.head_commit@ == plain->Ok_0.head_commit@
            &&& done.0.patch_sha256@ == plain->Ok_0.patch_sha256@
            &&& done.0.evidence_total == plain->Ok_0.evidence_total
            &&& done.0.evidence_failed == plain->Ok_0.evidence_failed
        },
        (read matches Err(e) ==> plain is Err && refusing::same_error(e, plain->Err_0)),
{
    if read is Err && plain is Err {
        refusing::lemma_same_error(read->Err_0, plain->Err_0);
    }
}

} // verus!
