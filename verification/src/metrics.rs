//! Aggregate counters and inventories of a state directory.

use vstd::prelude::*;
use vstd::string::*;
use vstd::utf8::*;

use crate::error::Error;
use crate::manager::CapsuleManager;
use crate::model::{
    Capsule, CapsuleState, MetricsSnapshot, StateCount, StateInspection, StateRecordInspection,
    SCHEMA_VERSION,
};
use crate::order::Ordered;
use crate::{bytes, error, order, policy, store, text};

verus! {

/// A sum that stays at the greatest number where it would exceed it.
pub open spec fn saturated(a: u64, b: u64) -> u64 {
    if a + b > u64::MAX {
        u64::MAX
    } else {
        (a + b) as u64
    }
}

pub(crate) fn saturate(a: u64, b: u64) -> (r: u64)
    ensures
        r == saturated(a, b),
{
    match a.checked_add(b) {
        Some(n) => n,
        None => u64::MAX,
    }
}

/// How many capsules are in a state.
pub open spec fn count_of(capsules: Seq<Capsule>, state: CapsuleState) -> nat
    decreases capsules.len(),
{
    if capsules.len() == 0 {
        0
    } else {
        count_of(capsules.drop_last(), state) + if capsules.last().state == state {
            1nat
        } else {
            0nat
        }
    }
}

/// How many capsules carry a sealed result.
pub open spec fn sealed_of(capsules: Seq<Capsule>) -> nat
    decreases capsules.len(),
{
    if capsules.len() == 0 {
        0
    } else {
        sealed_of(capsules.drop_last()) + if capsules.last().result is Some {
            1nat
        } else {
            0nat
        }
    }
}

/// The bytes of all sealed patches.
pub open spec fn patch_bytes_of(capsules: Seq<Capsule>) -> u64
    decreases capsules.len(),
{
    if capsules.len() == 0 {
        0
    } else {
        match capsules.last().result {
            Some(r) => saturated(patch_bytes_of(capsules.drop_last()), r.patch_bytes),
            None => patch_bytes_of(capsules.drop_last()),
        }
    }
}

/// How many events all capsules retain.
pub open spec fn events_of(capsules: Seq<Capsule>) -> u64
    decreases capsules.len(),
{
    if capsules.len() == 0 {
        0
    } else {
        saturated(
            events_of(capsules.drop_last()),
            capsules.last().audit_events@.len() as u64,
        )
    }
}

/// How many events rolled off in all capsules.
pub open spec fn dropped_events_of(capsules: Seq<Capsule>) -> u64
    decreases capsules.len(),
{
    if capsules.len() == 0 {
        0
    } else {
        saturated(
            dropped_events_of(capsules.drop_last()),
            capsules.last().audit_events_dropped,
        )
    }
}

/// All states, in the order of their names.
pub open spec fn named_states() -> Seq<CapsuleState> {
    seq![
        CapsuleState::Active,
        CapsuleState::Checkpointing,
        CapsuleState::Closed,
        CapsuleState::Creating,
        CapsuleState::Dropped,
        CapsuleState::Dropping,
        CapsuleState::Integrated,
        CapsuleState::Integrating,
        CapsuleState::Orphaned,
    ]
}

/// The counts of those among `states` that occur.
pub open spec fn counts_of(capsules: Seq<Capsule>, states: Seq<CapsuleState>) -> Seq<StateCount>
    decreases states.len(),
{
    if states.len() == 0 {
        Seq::empty()
    } else {
        let before = counts_of(capsules, states.drop_last());
        let n = count_of(capsules, states.last());
        if n > 0 {
            before.push(StateCount { state: states.last(), count: n as u64 })
        } else {
            before
        }
    }
}

/// Whether a snapshot holds the counters of the capsules.
pub open spec fn is_snapshot(
    m: MetricsSnapshot,
    capsules: Seq<Capsule>,
    state_bytes: u64,
    workspace_bytes: u64,
    at: u64,
) -> bool {
    &&& m.observed_at_unix == at
    &&& m.capsules == capsules.len()
    &&& m.live_capsules == policy::live_of(capsules)
    &&& m.sealed_results == sealed_of(capsules)
    &&& m.result_patch_bytes == patch_bytes_of(capsules)
    &&& m.state_bytes == state_bytes
    &&& m.workspace_bytes == workspace_bytes
    &&& m.audit_events == events_of(capsules)
    &&& m.audit_events_dropped == dropped_events_of(capsules)
    &&& m.states@ == counts_of(capsules, named_states())
}

fn count(capsules: &Vec<Capsule>, state: CapsuleState) -> (r: u64)
    ensures
        r == count_of(capsules@, state),
{
    let mut n: u64 = 0;
    let mut i: usize = 0;
    while i < capsules.len()
        invariant
            i <= capsules.len(),
            n == count_of(capsules@.take(i as int), state),
            n <= i,
        decreases capsules.len() - i,
    {
        proof {
            assert(capsules@.take(i + 1).drop_last() =~= capsules@.take(i as int));
        }
        if capsules[i].state == state {
            n += 1;
        }
        i += 1;
    }
    proof {
        assert(capsules@.take(capsules@.len() as int) =~= capsules@);
    }
    n
}

fn states() -> (r: Vec<CapsuleState>)
    ensures
        r@ == named_states(),
{
    let mut r: Vec<CapsuleState> = Vec::new();
    r.push(CapsuleState::Active);
    r.push(CapsuleState::Checkpointing);
    r.push(CapsuleState::Closed);
    r.push(CapsuleState::Creating);
    r.push(CapsuleState::Dropped);
    r.push(CapsuleState::Dropping);
    r.push(CapsuleState::Integrated);
    r.push(CapsuleState::Integrating);
    r.push(CapsuleState::Orphaned);
    proof {
        assert(r@ =~= named_states());
    }
    r
}

fn count_states(capsules: &Vec<Capsule>) -> (r: Vec<StateCount>)
    ensures
        r@ == counts_of(capsules@, named_states()),
{
    let all = states();
    let mut r: Vec<StateCount> = Vec::new();
    let mut i: usize = 0;
    while i < all.len()
        invariant
            i <= all.len(),
            all@ == named_states(),
            r@ == counts_of(capsules@, all@.take(i as int)),
        decreases all.len() - i,
    {
        proof {
            assert(all@.take(i + 1).drop_last() =~= all@.take(i as int));
            assert(all@.take(i + 1).last() == all@[i as int]);
        }
        let n: u64 = count(capsules, all[i]);
        if n > 0 {
            r.push(StateCount { state: all[i], count: n });
        }
        i += 1;
    }
    proof {
        assert(all@.take(all@.len() as int) =~= all@);
    }
    r
}

impl Ordered for StateRecordInspection {
    open spec fn precedes(self, other: Self) -> bool {
        bytes::bytes_before(encode_utf8(self.id@), encode_utf8(other.id@))
    }

    fn before(&self, other: &Self) -> (r: bool) {
        bytes::before(self.id.as_str().as_bytes(), other.id.as_str().as_bytes())
    }
}

/// Whether an inspection describes a stored manifest, whatever its schema: the
/// version and the raw state it declares where it can be read and is JSON, and
/// otherwise why not.
pub open spec fn inspects(
    r: StateRecordInspection,
    id: Seq<char>,
    content: std::result::Result<Vec<u8>, Error>,
    has_result: bool,
) -> bool {
    &&& r.id@ == id
    &&& r.has_result == has_result
    &&& match content {
        Err(e) => r.schema_version is None && r.state is None && text::opt_view(r.error) == Some(
            error::message_of(e@),
        ),
        Ok(document) => match store::json_number_of(document@, "schema_version"@) {
            Err(m) => r.schema_version is None && r.state is None && text::opt_view(r.error)
                == Some(m),
            Ok(n) => r.schema_version == store::version_of(n) && text::opt_view(r.state)
                == store::json_text_of(document@, "state"@) && r.error is None,
        },
    }
}

/// Describe one stored manifest; see [`inspects`].
pub fn inspect_record(
    id: String,
    content: &std::result::Result<Vec<u8>, Error>,
    has_result: bool,
) -> (r: StateRecordInspection)
    ensures
        inspects(r, id@, *content, has_result),
{
    match content {
        Err(e) => StateRecordInspection {
            id,
            schema_version: None,
            state: None,
            has_result,
            error: Some(e.message()),
        },
        Ok(document) => match store::declared_version(document.as_slice()) {
            Err(m) => StateRecordInspection {
                id,
                schema_version: None,
                state: None,
                has_result,
                error: Some(m),
            },
            Ok(schema_version) => StateRecordInspection {
                id,
                schema_version,
                state: store::json_text(document.as_slice(), "state"),
                has_result,
                error: None,
            },
        },
    }
}

impl CapsuleManager {
    /// An instantaneous snapshot of aggregate counters.
    pub fn metrics(
        &self,
        capsules: std::result::Result<Vec<Capsule>, Error>,
        state_bytes: std::result::Result<u64, Error>,
        workspace_bytes: std::result::Result<u64, Error>,
        observed_at: u64,
    ) -> (r: std::result::Result<MetricsSnapshot, Error>)
        ensures
            match (capsules, state_bytes, workspace_bytes) {
                (Err(e), _, _) => r matches Err(found) && found@ == e@,
                (Ok(_), Err(e), _) => r matches Err(found) && found@ == e@,
                (Ok(_), Ok(_), Err(e)) => r matches Err(found) && found@ == e@,
                (Ok(all), Ok(s), Ok(w)) => r matches Ok(m) && is_snapshot(
                    m,
                    all@,
                    s,
                    w,
                    observed_at,
                ),
            },
    {
        let capsules = match capsules {
            Err(e) => {
                return Err(e);
            },
            Ok(all) => all,
        };
        let state_bytes: u64 = match state_bytes {
            Err(e) => {
                return Err(e);
            },
            Ok(n) => n,
        };
        let workspace_bytes: u64 = match workspace_bytes {
            Err(e) => {
                return Err(e);
            },
            Ok(n) => n,
        };
        let mut sealed_results: u64 = 0;
        let mut result_patch_bytes: u64 = 0;
        let mut audit_events: u64 = 0;
        let mut audit_events_dropped: u64 = 0;
        let mut i: usize = 0;
        while i < capsules.len()
            invariant
                i <= capsules.len(),
                sealed_results <= i,
                sealed_results == sealed_of(capsules@.take(i as int)),
                result_patch_bytes == patch_bytes_of(capsules@.take(i as int)),
                audit_events == events_of(capsules@.take(i as int)),
                audit_events_dropped == dropped_events_of(capsules@.take(i as int)),
            decreases capsules.len() - i,
        {
            proof {
                assert(capsules@.take(i + 1).drop_last() =~= capsules@.take(i as int));
                assert(capsules@.take(i + 1).last() == capsules@[i as int]);
            }
            match &capsules[i].result {
                Some(result) => {
                    sealed_results += 1;
                    result_patch_bytes = saturate(result_patch_bytes, result.patch_bytes);
                },
                None => {},
            }
            audit_events = saturate(audit_events, capsules[i].audit_events.len() as u64);
            audit_events_dropped = saturate(
                audit_events_dropped,
                capsules[i].audit_events_dropped,
            );
            i += 1;
        }
        proof {
            assert(capsules@.take(capsules@.len() as int) =~= capsules@);
        }
        Ok(
            MetricsSnapshot {
                observed_at_unix: observed_at,
                capsules: capsules.len() as u64,
                live_capsules: policy::live_count(&capsules),
                sealed_results,
                result_patch_bytes,
                state_bytes,
                workspace_bytes,
                audit_events,
                audit_events_dropped,
                states: count_states(&capsules),
            },
        )
    }

    /// Summarize stored records, including those whose schema is unsupported,
    /// by identifier.
    pub fn inspect_state(
        &self,
        records: Vec<StateRecordInspection>,
        state_bytes: std::result::Result<u64, Error>,
    ) -> (r: std::result::Result<StateInspection, Error>)
        ensures
            match state_bytes {
                Err(e) => r matches Err(found) && found@ == e@,
                Ok(n) => r matches Ok(found) && found.state_root@ == self.store.root@
                    && found.supported_schema_version == SCHEMA_VERSION && found.state_bytes == n
                    && found.records@ == order::sorted(records@),
            },
    {
        match state_bytes {
            Err(e) => Err(e),
            Ok(n) => Ok(
                StateInspection {
                    state_root: self.store.root.clone(),
                    supported_schema_version: SCHEMA_VERSION,
                    state_bytes: n,
                    records: order::sort(records),
                },
            ),
        }
    }
}

/// Every capsule is counted once: the counts of all states add up to all
/// capsules, every state has a place among those counted, and the live ones
/// are all but the dropped.
pub proof fn law_state_counts_are_complete(capsules: Seq<Capsule>)
    ensures
        count_of(capsules, CapsuleState::Active) + count_of(capsules, CapsuleState::Checkpointing)
            + count_of(capsules, CapsuleState::Closed) + count_of(capsules, CapsuleState::Creating)
            + count_of(capsules, CapsuleState::Dropped) + count_of(capsules, CapsuleState::Dropping)
            + count_of(capsules, CapsuleState::Integrated) + count_of(
            capsules,
            CapsuleState::Integrating,
        ) + count_of(capsules, CapsuleState::Orphaned) == capsules.len(),
        policy::live_of(capsules) == capsules.len() - count_of(capsules, CapsuleState::Dropped),
        forall|s: CapsuleState| #[trigger] named_states().contains(s),
    decreases capsules.len(),
{
    if capsules.len() > 0 {
        law_state_counts_are_complete(capsules.drop_last());
    }
    assert forall|s: CapsuleState| #[trigger] named_states().contains(s) by {
        let at: int = match s {
            CapsuleState::Active => 0,
            CapsuleState::Checkpointing => 1,
            CapsuleState::Closed => 2,
            CapsuleState::Creating => 3,
            CapsuleState::Dropped => 4,
            CapsuleState::Dropping => 5,
            CapsuleState::Integrated => 6,
            CapsuleState::Integrating => 7,
            CapsuleState::Orphaned => 8,
        };
        assert(named_states()[at] == s);
    }
}

} // verus!
