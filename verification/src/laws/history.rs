//! What a capsule's history holds.

use vstd::prelude::*;
use vstd::string::*;
use vstd::utf8::*;

use crate::audit::SequencedEvent;
use crate::error::Error;
use crate::laws::records;
use crate::links::Links;
use crate::manager::CapsuleManager;
use crate::model::{AuditEvent, AuditEventKind, Capsule, CapsuleState};
use crate::{audit, bytes, create, digest, laws, order};

verus! {

/// Whether an identifier is `evt-` and twenty-six digits and small letters.
pub open spec fn is_event_id(t: Seq<char>) -> bool {
    &&& t.len() == 30
    &&& t[0] == 'e' && t[1] == 'v' && t[2] == 't' && t[3] == '-'
    &&& forall|i: int| 4 <= i < 30 ==> '0' <= #[trigger] t[i] <= '9' || 'a' <= t[i] <= 'z'
}

proof fn lemma_event_id(id: Seq<char>)
    requires
        create::is_drawn("evt-"@, id),
    ensures
        is_event_id(id),
{
    reveal_strlit("evt-");
    let t = choose|t: Seq<char>| create::is_ulid(t) && id == "evt-"@ + #[trigger] create::lowered(t);
    assert forall|i: int| 4 <= i < 30 implies '0' <= #[trigger] id[i] <= '9' || 'a' <= id[i] <= 'z' by {
        assert(create::is_ulid_char(t[i - 4]));
        assert(id[i] == create::lowered_char(t[i - 4]));
    }
}

/// Recording a transition adds one event that says which it was, at the end of
/// the history. The newest 128 events are kept, each that is not is counted, and
/// nothing else of the capsule changes.
pub proof fn law_transitions_are_recorded_at_the_end(
    c: Capsule,
    kind: AuditEventKind,
    previous: Option<CapsuleState>,
    attributes: Links,
    at: u64,
    r: Capsule,
)
    requires
        call_ensures(audit::record_event, (c, kind, previous, attributes, at), r),
    ensures
        r == (Capsule {
            audit_events: r.audit_events,
            audit_events_dropped: r.audit_events_dropped,
            ..c
        }),
        r.audit_events@.len() == (if c.audit_events@.len() < 128 {
            c.audit_events@.len() + 1
        } else {
            128
        }),
        ({
            let e = r.audit_events@.last();
            &&& e.schema_version == 1
            &&& is_event_id(e.event_id@)
            &&& e.occurred_at_unix == at
            &&& e.kind == kind
            &&& laws::opt(e.capsule_id) == Some(c.id@)
            &&& laws::opt(e.project_key) == Some(c.project_key@)
            &&& e.previous_state == previous
            &&& e.state == Some(c.state)
            &&& e.attributes == attributes
        }),
        forall|i: int|
            0 <= i < r.audit_events@.len() - 1 ==> #[trigger] r.audit_events@[i]
                == c.audit_events@[c.audit_events@.len() + 1 - r.audit_events@.len() + i],
        r.audit_events_dropped == (if c.audit_events_dropped + c.audit_events@.len() + 1
            - r.audit_events@.len() <= u64::MAX {
            c.audit_events_dropped + c.audit_events@.len() + 1 - r.audit_events@.len()
        } else {
            u64::MAX as int
        }),
{
    lemma_event_id(r.audit_events@.last().event_id@);
}

/// The history of a capsule is read exactly where its record is accepted, and is
/// what the record holds.
pub proof fn law_history_is_what_the_record_holds(
    m: CapsuleManager,
    id: &str,
    stored: std::result::Result<Capsule, Error>,
    r: std::result::Result<Vec<AuditEvent>, Error>,
)
    requires
        call_ensures(CapsuleManager::audit_events, (&m, id, stored), r),
    ensures
        r is Ok <==> records::is_found(m.store.root.bytes@, id@, stored),
        r matches Ok(events) ==> events == stored->Ok_0.audit_events,
{
    records::lemma_found(m.store.root.bytes@, id@, stored);
}

/// The events of capsules, each with its capsule and its place in it.
pub open spec fn labelled(capsules: Seq<Capsule>) -> Seq<SequencedEvent>
    decreases capsules.len(),
{
    if capsules.len() == 0 {
        Seq::empty()
    } else {
        let c = capsules.last();
        labelled(capsules.drop_last()) + Seq::new(
            c.audit_events@.len(),
            |k: int|
                SequencedEvent { capsule_id: c.id, sequence: k as usize, event: c.audit_events@[k] },
        )
    }
}

/// Whether an event may stand before another: it is older; at the same time its
/// capsule's identifier is the lesser one; and within a capsule it was recorded
/// first.
pub open spec fn may_precede(a: SequencedEvent, b: SequencedEvent) -> bool {
    ||| a.event.occurred_at_unix < b.event.occurred_at_unix
    ||| a.event.occurred_at_unix == b.event.occurred_at_unix && (if a.capsule_id@ == b.capsule_id@ {
        a.sequence <= b.sequence
    } else {
        laws::stands_before(encode_utf8(a.capsule_id@), encode_utf8(b.capsule_id@))
    })
}

/// Whether a row holds exactly the events of the capsules, in time order.
pub open spec fn is_log(row: Seq<SequencedEvent>, capsules: Seq<Capsule>) -> bool {
    &&& row.to_multiset() == labelled(capsules).to_multiset()
    &&& row.len() == labelled(capsules).len()
    &&& forall|i: int, j: int|
        0 <= i < j < row.len() ==> may_precede(#[trigger] row[i], #[trigger] row[j])
}

proof fn lemma_labelled(rows: Seq<SequencedEvent>, capsules: Seq<Capsule>)
    requires
        audit::is_sequence_of(rows, capsules),
    ensures
        rows == labelled(capsules),
    decreases capsules.len(),
{
    if capsules.len() > 0 {
        let c = capsules.last();
        let n = rows.len() - c.audit_events@.len();
        lemma_labelled(rows.take(n), capsules.drop_last());
        assert forall|i: int| 0 <= i < rows.len() implies rows[i] == #[trigger] labelled(
            capsules,
        )[i] by {
            if i < n {
                assert(rows.take(n)[i] == rows[i]);
            } else {
                let k = i - n;
                assert(rows[n + k].event == c.audit_events@[k]);
                assert(rows[n + k].sequence == k);
            }
        }
        assert(rows =~= labelled(capsules));
    }
}

/// The merged history holds every event of every capsule once, in time order.
pub proof fn law_merged_history_is_complete_and_in_order(
    m: CapsuleManager,
    capsules: std::result::Result<Vec<Capsule>, Error>,
    r: std::result::Result<Vec<AuditEvent>, Error>,
)
    requires
        call_ensures(CapsuleManager::audit_log, (&m, capsules), r),
    ensures
        r is Ok <==> capsules is Ok,
        r matches Ok(events) ==> exists|row: Seq<SequencedEvent>| #[trigger]
            is_log(row, capsules->Ok_0@) && events@.len() == row.len() && forall|i: int|
                0 <= i < row.len() ==> #[trigger] events@[i] == row[i].event,
{
    if let (Ok(all), Ok(events)) = (capsules, r) {
        let rows = choose|rows: Seq<SequencedEvent>| #[trigger]
            audit::is_sequence_of(rows, all@) && events@ == audit::events_in(order::sorted(rows));
        lemma_labelled(rows, all@);
        order::lemma_sorted_is_permutation(rows);
        let row = order::sorted(rows);
        assert forall|i: int, j: int| 0 <= i < j < row.len() implies may_precede(
            #[trigger] row[i],
            #[trigger] row[j],
        ) by {
            audit::law_audit_log_is_complete_and_ordered(rows, i, j);
            laws::lemma_stands_before(
                encode_utf8(row[i].capsule_id@),
                encode_utf8(row[j].capsule_id@),
            );
        }
        assert(is_log(row, all@));
    }
}

} // verus!
