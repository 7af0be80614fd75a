//! What is counted, inspected, and backed up.

use vstd::prelude::*;
use vstd::string::*;
use vstd::utf8::*;

use crate::backup::{BackupPlan, StateFile};
use crate::capabilities::Capabilities;
use crate::error::Error;
use crate::laws::exporting;
use crate::laws::limiting;
use crate::laws::places;
use crate::manager::CapsuleManager;
use crate::model::{
    Capsule, CapsuleState, MetricsSnapshot, StateCount, StateInspection, StateRecordInspection,
};
use crate::order::Ordered;
use crate::paths::NativePath;
use crate::{backup, bytes, capabilities, error, laws, metrics, order, paths, record, store, text};

verus! {

/// A sum as far as it can be shown.
pub open spec fn shown(n: int) -> int {
    if n <= u64::MAX {
        n
    } else {
        u64::MAX as int
    }
}

/// The bytes of all sealed patches.
pub open spec fn patches(capsules: Seq<Capsule>) -> int
    decreases capsules.len(),
{
    if capsules.len() == 0 {
        0
    } else {
        patches(capsules.drop_last()) + (match capsules.last().result {
            Some(s) => s.patch_bytes as int,
            None => 0,
        })
    }
}

/// How many events all capsules retain.
pub open spec fn retained(capsules: Seq<Capsule>) -> int
    decreases capsules.len(),
{
    if capsules.len() == 0 {
        0
    } else {
        retained(capsules.drop_last()) + capsules.last().audit_events@.len()
    }
}

/// How many events rolled off in all capsules.
pub open spec fn rolled_off(capsules: Seq<Capsule>) -> int
    decreases capsules.len(),
{
    if capsules.len() == 0 {
        0
    } else {
        rolled_off(capsules.drop_last()) + capsules.last().audit_events_dropped
    }
}

/// How many capsules are in a state.
pub open spec fn in_state(capsules: Seq<Capsule>, s: CapsuleState) -> int {
    capsules.filter(|c: Capsule| c.state == s).len() as int
}

/// How many capsules are sealed.
pub open spec fn sealed(capsules: Seq<Capsule>) -> int {
    capsules.filter(|c: Capsule| c.result is Some).len() as int
}

/// The place of a state among all states by name.
pub open spec fn rank(s: CapsuleState) -> int {
    match s {
        CapsuleState::Active => 0,
        CapsuleState::Checkpointing => 1,
        CapsuleState::Closed => 2,
        CapsuleState::Creating => 3,
        CapsuleState::Dropped => 4,
        CapsuleState::Dropping => 5,
        CapsuleState::Integrated => 6,
        CapsuleState::Integrating => 7,
        CapsuleState::Orphaned => 8,
    }
}

proof fn lemma_sums(capsules: Seq<Capsule>)
    ensures
        metrics::patch_bytes_of(capsules) == shown(patches(capsules)),
        metrics::events_of(capsules) == shown(retained(capsules)),
        metrics::dropped_events_of(capsules) == shown(rolled_off(capsules)),
        metrics::sealed_of(capsules) == sealed(capsules),
        patches(capsules) >= 0,
        retained(capsules) >= 0,
        rolled_off(capsules) >= 0,
    decreases capsules.len(),
{
    reveal(Seq::filter);
    if capsules.len() > 0 {
        lemma_sums(capsules.drop_last());
        assert(capsules.last().audit_events.len() <= usize::MAX);
    }
}

proof fn lemma_in_state(capsules: Seq<Capsule>, s: CapsuleState)
    ensures
        metrics::count_of(capsules, s) == in_state(capsules, s),
        in_state(capsules, s) <= capsules.len(),
        in_state(capsules, s) == 0 <==> forall|i: int|
            0 <= i < capsules.len() ==> (#[trigger] capsules[i]).state != s,
    decreases capsules.len(),
{
    reveal(Seq::filter);
    if capsules.len() > 0 {
        let front = capsules.drop_last();
        lemma_in_state(front, s);
        if in_state(capsules, s) == 0 {
            assert forall|i: int| 0 <= i < capsules.len() implies (#[trigger] capsules[i]).state
                != s by {
                if i < front.len() {
                    assert(front[i] == capsules[i]);
                }
            }
        }
        if forall|i: int| 0 <= i < capsules.len() ==> (#[trigger] capsules[i]).state != s {
            assert forall|i: int| 0 <= i < front.len() implies (#[trigger] front[i]).state != s by {
                assert(front[i] == capsules[i]);
            }
            assert(capsules[capsules.len() - 1].state != s);
        }
    }
}

/// Whether a row counts a state.
pub open spec fn counts(row: Seq<StateCount>, s: CapsuleState) -> bool {
    exists|i: int| 0 <= i < row.len() && (#[trigger] row[i]).state == s
}

proof fn lemma_counts(capsules: Seq<Capsule>, states: Seq<CapsuleState>)
    requires
        capsules.len() <= u64::MAX,
        forall|i: int, j: int|
            0 <= i < j < states.len() ==> rank(#[trigger] states[i]) < rank(#[trigger] states[j]),
    ensures
        ({
            let row = metrics::counts_of(capsules, states);
            &&& forall|i: int|
                0 <= i < row.len() ==> (#[trigger] row[i]).count == in_state(capsules, row[i].state)
                    && row[i].count > 0 && rank(row[i].state) <= rank(states.last())
            &&& forall|i: int, j: int|
                0 <= i < j < row.len() ==> rank((#[trigger] row[i]).state) < rank(
                    (#[trigger] row[j]).state,
                )
            &&& forall|k: int|
                0 <= k < states.len() && in_state(capsules, #[trigger] states[k]) > 0 ==> counts(
                    row,
                    states[k],
                )
        }),
    decreases states.len(),
{
    if states.len() > 0 {
        let front = states.drop_last();
        let last = states.last();
        assert forall|i: int, j: int| 0 <= i < j < front.len() implies rank(#[trigger] front[i])
            < rank(#[trigger] front[j]) by {
            assert(front[i] == states[i] && front[j] == states[j]);
        }
        lemma_counts(capsules, front);
        lemma_in_state(capsules, last);
        let before = metrics::counts_of(capsules, front);
        let row = metrics::counts_of(capsules, states);
        if front.len() > 0 {
            assert(front.last() == states[states.len() - 2]);
            assert(rank(states[states.len() - 2]) < rank(states[states.len() - 1]));
        }
        assert forall|i: int| 0 <= i < row.len() implies (#[trigger] row[i]).count == in_state(
            capsules,
            row[i].state,
        ) && row[i].count > 0 && rank(row[i].state) <= rank(states.last()) by {
            if i < before.len() {
                assert(before[i] == row[i]);
                if front.len() == 0 {
                    assert(before.len() == 0);
                }
            }
        }
        assert forall|i: int, j: int| 0 <= i < j < row.len() implies rank((#[trigger] row[i]).state)
            < rank((#[trigger] row[j]).state) by {
            assert(before[i] == row[i]);
            if front.len() == 0 {
                assert(before.len() == 0);
            }
            if j < before.len() {
                assert(before[j] == row[j]);
            }
        }
        assert forall|k: int| 0 <= k < states.len() && in_state(capsules, #[trigger] states[k])
            > 0 implies counts(row, states[k]) by {
            if k < front.len() {
                assert(front[k] == states[k]);
                assert(counts(before, front[k]));
                let i = choose|i: int|
                    0 <= i < before.len() && (#[trigger] before[i]).state == front[k];
                assert(row[i] == before[i]);
            } else {
                assert(row[row.len() - 1].state == states[k]);
            }
        }
    }
}

/// A snapshot counts every capsule once: in its state, as live where it is not
/// dropped, as sealed where it has a result. Sums are exact as far as they can
/// be shown.
pub proof fn law_snapshots_count_every_capsule(
    m: CapsuleManager,
    capsules: std::result::Result<Vec<Capsule>, Error>,
    state_bytes: std::result::Result<u64, Error>,
    workspace_bytes: std::result::Result<u64, Error>,
    at: u64,
    r: std::result::Result<MetricsSnapshot, Error>,
)
    requires
        call_ensures(
            CapsuleManager::metrics,
            (&m, capsules, state_bytes, workspace_bytes, at),
            r,
        ),
    ensures
        r is Ok <==> capsules is Ok && state_bytes is Ok && workspace_bytes is Ok,
        r matches Ok(s) ==> {
            let all = capsules->Ok_0@;
            &&& s.observed_at_unix == at
            &&& s.capsules == all.len()
            &&& s.live_capsules == limiting::live(all)
            &&& s.sealed_results == sealed(all)
            &&& s.result_patch_bytes == shown(patches(all))
            &&& s.state_bytes == state_bytes->Ok_0
            &&& s.workspace_bytes == workspace_bytes->Ok_0
            &&& s.audit_events == shown(retained(all))
            &&& s.audit_events_dropped == shown(rolled_off(all))
            &&& forall|i: int|
                0 <= i < s.states@.len() ==> (#[trigger] s.states@[i]).count == in_state(
                    all,
                    s.states@[i].state,
                ) && s.states@[i].count > 0
            &&& forall|i: int, j: int|
                0 <= i < j < s.states@.len() ==> rank((#[trigger] s.states@[i]).state) < rank(
                    (#[trigger] s.states@[j]).state,
                )
            &&& forall|k: int|
                0 <= k < all.len() ==> counts(s.states@, (#[trigger] all[k]).state)
        },
{
    if let (Ok(all), Ok(s)) = (capsules, r) {
        assert(all.len() <= usize::MAX);
        limiting::lemma_live(all@);
        lemma_sums(all@);
        lemma_counts(all@, metrics::named_states());
        metrics::law_state_counts_are_complete(all@);
        assert forall|k: int| 0 <= k < all@.len() implies counts(
            s.states@,
            (#[trigger] all@[k]).state,
        ) by {
            let state = all@[k].state;
            lemma_in_state(all@, state);
            assert(metrics::named_states().contains(state));
            let i = metrics::named_states().index_of(state);
            assert(in_state(all@, metrics::named_states()[i]) > 0);
        }
    }
}

/// An inspection of a stored manifest says which version and state it declares
/// where that can be read, and otherwise why not; never both.
pub proof fn law_inspections_say_what_is_declared(
    id: String,
    content: std::result::Result<Vec<u8>, Error>,
    has_result: bool,
    r: StateRecordInspection,
)
    requires
        call_ensures(metrics::inspect_record, (id, &content, has_result), r),
    ensures
        r.id@ == id@,
        r.has_result == has_result,
        match content {
            Err(e) => r.schema_version is None && r.state is None && r.error is Some,
            Ok(d) => match store::json_number_of(d@, "schema_version"@) {
                Err(why) => r.schema_version is None && r.state is None && laws::opt(r.error)
                    == Some(why),
                Ok(n) => r.error is None && laws::opt(r.state) == store::json_text_of(d@, "state"@)
                    && r.schema_version == (match n {
                    Some(v) => if v <= u32::MAX {
                        Some(v as u32)
                    } else {
                        None
                    },
                    None => None,
                }),
            },
        },
{
}

/// An inspection of the state holds every record that was inspected, in the
/// order of their identifiers.
pub proof fn law_inspections_hold_every_record(
    m: CapsuleManager,
    rows: Vec<StateRecordInspection>,
    state_bytes: std::result::Result<u64, Error>,
    r: std::result::Result<StateInspection, Error>,
)
    requires
        call_ensures(CapsuleManager::inspect_state, (&m, rows, state_bytes), r),
    ensures
        r is Ok <==> state_bytes is Ok,
        r matches Ok(found) ==> {
            &&& found.state_root.bytes@ == m.store.root.bytes@
            &&& found.supported_schema_version == 5
            &&& found.state_bytes == state_bytes->Ok_0
            &&& found.records@.to_multiset() == rows@.to_multiset()
            &&& forall|i: int, j: int|
                0 <= i < j < found.records@.len() ==> !laws::stands_before(
                    encode_utf8((#[trigger] found.records@[j]).id@),
                    encode_utf8((#[trigger] found.records@[i]).id@),
                )
        },
{
    if let Ok(found) = r {
        order::lemma_sorted_is_permutation(rows@);
        assert forall|a: StateRecordInspection, b: StateRecordInspection| #[trigger]
            a.precedes(b) implies !b.precedes(a) by {
            lemma_order(encode_utf8(a.id@), encode_utf8(b.id@), encode_utf8(a.id@));
        }
        assert forall|a: StateRecordInspection, b: StateRecordInspection, c: StateRecordInspection|
            !(#[trigger] b.precedes(a)) && !(#[trigger] c.precedes(b)) implies !c.precedes(a) by {
            lemma_order(encode_utf8(a.id@), encode_utf8(b.id@), encode_utf8(c.id@));
        }
        order::lemma_sorted_in_order(rows@);
        assert forall|i: int, j: int| 0 <= i < j < found.records@.len() implies !laws::stands_before(
            encode_utf8((#[trigger] found.records@[j]).id@),
            encode_utf8((#[trigger] found.records@[i]).id@),
        ) by {
            assert(!found.records@[j].precedes(found.records@[i]));
            laws::lemma_stands_before(
                encode_utf8(found.records@[j].id@),
                encode_utf8(found.records@[i].id@),
            );
        }
    }
}

pub(crate) proof fn lemma_order(a: Seq<u8>, b: Seq<u8>, c: Seq<u8>)
    ensures
        bytes::bytes_before(a, b) ==> !bytes::bytes_before(b, a),
        !bytes::bytes_before(b, a) && !bytes::bytes_before(c, b) ==> !bytes::bytes_before(c, a),
{
    bytes::lemma_before_irreflexive(a);
    if bytes::bytes_before(a, b) && bytes::bytes_before(b, a) {
        bytes::lemma_before_transitive(a, b, a);
    }
    if bytes::bytes_before(c, a) {
        bytes::lemma_before_total(a, b);
        if bytes::bytes_before(a, b) {
            bytes::lemma_before_transitive(c, a, b);
        }
    }
}

/// Whether a path below the state root is part of a backup: the policy, or what
/// the directory of a record keeps.
pub open spec fn is_kept(p: Seq<u8>) -> bool {
    let row = exporting::parts(p);
    ||| row.len() == 1 && row[0] == encode_utf8("policy.json"@)
    ||| row.len() == 3 && row[0] == encode_utf8("capsules"@) && (row[2] == encode_utf8(
        "capsule.json"@,
    ) || row[2] == encode_utf8("result.json"@) || row[2] == encode_utf8("result.patch"@))
}

/// The bytes of files.
pub open spec fn sizes(row: Seq<StateFile>) -> int
    decreases row.len(),
{
    if row.len() == 0 {
        0
    } else {
        sizes(row.drop_last()) + row.last().bytes
    }
}

/// Whether two rows list the same files, one by one.
pub open spec fn same_files(a: Seq<StateFile>, b: Seq<StateFile>) -> bool {
    a.len() == b.len() && forall|i: int|
        0 <= i < a.len() ==> (#[trigger] a[i]).path.bytes@ == b[i].path.bytes@ && a[i].bytes
            == b[i].bytes
}

proof fn lemma_sizes(row: Seq<StateFile>)
    ensures
        backup::size_of(record::views(row)) == shown(sizes(row)),
        sizes(row) >= 0,
    decreases row.len(),
{
    if row.len() > 0 {
        lemma_sizes(row.drop_last());
        assert(record::views(row).drop_last() =~= record::views(row.drop_last()));
        assert(record::views(row).last() == row.last()@);
    }
}

proof fn lemma_kept(p: Seq<u8>)
    ensures
        is_kept(p) <==> backup::is_durable(p),
{
    places::lemma_names(p);
    places::lemma_pieces(p);
    assert(exporting::parts(p) == paths::components(p));
}

proof fn lemma_chosen(found: Seq<StateFile>)
    ensures
        backup::durable_of(record::views(found)) == record::views(
            found.filter(|f: StateFile| is_kept(f.path.bytes@)),
        ),
    decreases found.len(),
{
    reveal(Seq::filter);
    let keep = |f: StateFile| is_kept(f.path.bytes@);
    if found.len() > 0 {
        let front = found.drop_last();
        lemma_chosen(front);
        lemma_kept(found.last().path.bytes@);
        assert(record::views(found).drop_last() =~= record::views(front));
        assert(record::views(found).last() == found.last()@);
        assert(record::views(front.filter(keep).push(found.last())) =~= record::views(
            front.filter(keep),
        ).push(found.last()@));
    } else {
        assert(record::views(found) =~= record::views(found.filter(keep)));
    }
}

/// A backup goes to a directory outside managed state where nothing is yet. It
/// holds every durable file that was found and no other, and says how many and
/// how large they are.
pub proof fn law_backups_hold_all_durable_files(
    m: CapsuleManager,
    requested: NativePath,
    normalized: std::result::Result<Option<NativePath>, Error>,
    present: std::result::Result<bool, Error>,
    found: std::result::Result<Vec<StateFile>, Error>,
    r: std::result::Result<BackupPlan, Error>,
)
    requires
        call_ensures(
            CapsuleManager::backup_state,
            (&m, &requested, normalized, present, found),
            r,
        ),
    ensures
        r is Ok <==> {
            &&& normalized matches Ok(Some(p)) && !exporting::is_below(
                p.bytes@,
                m.store.root.bytes@,
            )
            &&& present == Ok::<bool, Error>(false)
            &&& found is Ok
        },
        r matches Ok(plan) ==> {
            &&& same_files(
                plan.files@,
                found->Ok_0@.filter(|f: StateFile| is_kept(f.path.bytes@)),
            )
            &&& plan.report.source.bytes@ == m.store.root.bytes@
            &&& Some(plan.report.destination) == normalized->Ok_0
            &&& plan.report.files == plan.files@.len()
            &&& plan.report.bytes == shown(sizes(plan.files@))
        },
{
    if let Ok(Some(p)) = normalized {
        exporting::lemma_below(p.bytes@, m.store.root.bytes@);
    }
    if let Ok(plan) = r {
        let wanted = found->Ok_0@.filter(|f: StateFile| is_kept(f.path.bytes@));
        lemma_chosen(found->Ok_0@);
        lemma_sizes(plan.files@);
        laws::lemma_views(plan.files@);
        laws::lemma_views(wanted);
        assert forall|i: int| 0 <= i < wanted.len() implies (#[trigger] plan.files@[i]).path.bytes@
            == wanted[i].path.bytes@ && plan.files@[i].bytes == wanted[i].bytes by {
            assert(record::views(plan.files@)[i] == record::views(wanted)[i]);
        }
    }
}

/// Whether a row of names holds a name.
pub open spec fn offers(row: Seq<&'static str>, name: Seq<char>) -> bool {
    exists|i: int| 0 <= i < row.len() && (#[trigger] row[i])@ == name
}

/// What this build says it can do: the versions it writes and reads, the limits
/// it holds inputs to, and exactly its ten features.
pub proof fn law_capabilities_are_those_of_the_build(r: Capabilities)
    requires
        call_ensures(Capabilities::current, (), r),
    ensures
        r.capability_schema_version == 1,
        r.product@ == "change-capsule"@,
        r.product_version@ == "0.3.0"@,
        r.protocol_versions@ == seq![1u32],
        r.schemas.durable_read_write@ == seq![5u32],
        r.schemas.receipt_verify@ == seq![5u32],
        r.schemas.bundle@ == seq![1u32],
        r.schemas.idempotency_record@ == seq![1u32],
        r.limits.label_bytes == 256,
        r.limits.links == 32,
        r.limits.link_key_bytes == 64,
        r.limits.link_value_bytes == 4096,
        r.limits.idempotency_key_bytes == 256,
        r.features@.len() == 10,
        offers(r.features@, "cli.structured-errors.v1"@),
        offers(r.features@, "create.v1"@),
        offers(r.features@, "create.idempotent.v1"@),
        offers(r.features@, "idempotency.lookup.v1"@),
        offers(r.features@, "recover.targeted.v1"@),
        offers(r.features@, "diff.sha256.v1"@),
        offers(r.features@, "receipt.export.v1"@),
        offers(r.features@, "receipt.verify.v1"@),
        offers(r.features@, "receipt.attest.intoto.v1"@),
        offers(r.features@, "evidence.executed.v1"@),
{
    let row = r.features@;
    assert(capabilities::names(row).len() == row.len());
    assert forall|i: int| 0 <= i < row.len() implies (#[trigger] row[i])@
        == capabilities::features_of()[i] by {
        assert(capabilities::names(row)[i] == row[i]@);
    }
    assert(row[0]@ == "cli.structured-errors.v1"@ && row[1]@ == "create.v1"@ && row[2]@
        == "create.idempotent.v1"@ && row[3]@ == "idempotency.lookup.v1"@ && row[4]@
        == "recover.targeted.v1"@ && row[5]@ == "diff.sha256.v1"@ && row[6]@
        == "receipt.export.v1"@ && row[7]@ == "receipt.verify.v1"@ && row[8]@
        == "receipt.attest.intoto.v1"@ && row[9]@ == "evidence.executed.v1"@);
}

} // verus!
