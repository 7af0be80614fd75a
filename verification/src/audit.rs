//! Structured history of lifecycle transitions.
//!
//! Every successful transition leaves one event in its capsule's record. The
//! record keeps the newest events only and counts those that rolled off.

use vstd::prelude::*;
use vstd::string::*;
use vstd::utf8::*;

use crate::error::Error;
use crate::links::Links;
use crate::manager::CapsuleManager;
use crate::model::{
    AuditEvent, AuditEventKind, Capsule, CapsuleState, AUDIT_EVENT_CAP, AUDIT_SCHEMA_VERSION,
};
use crate::order::Ordered;
use crate::{bytes, create, manager, order, text, validate};

verus! {

/// Whether an event records a transition of a capsule.
pub open spec fn is_event_of(
    e: AuditEvent,
    c: Capsule,
    kind: AuditEventKind,
    previous: Option<CapsuleState>,
    attributes: Links,
    at: u64,
) -> bool {
    &&& e.schema_version == AUDIT_SCHEMA_VERSION
    &&& is_event_id(e.event_id@)
    &&& e.occurred_at_unix == at
    &&& e.kind == kind
    &&& e.capsule_id == Some(c.id)
    &&& e.project_key == Some(c.project_key)
    &&& e.previous_state == previous
    &&& e.state == Some(c.state)
    &&& e.attributes == attributes
}

/// Whether a text is an event identifier: `evt-` and a ULID in small letters.
pub open spec fn is_event_id(id: Seq<char>) -> bool {
    create::is_drawn("evt-"@, id)
}

/// The event identifier that a ULID gives.
pub fn event_id_of(ulid: &str) -> (r: String)
    ensures
        r@ == "evt-"@ + create::lowered(ulid@),
{
    text::cat2("evt-", create::lowercase(ulid).as_str())
}

/// A new event identifier: that of a fresh ULID.
pub fn new_event_id() -> (r: String)
    ensures
        is_event_id(r@),
{
    event_id_of(create::fresh_ulid().as_str())
}

/// The events a record keeps of a row: the newest, up to the bound.
pub open spec fn retained(events: Seq<AuditEvent>) -> Seq<AuditEvent> {
    if events.len() > AUDIT_EVENT_CAP {
        events.skip(events.len() - AUDIT_EVENT_CAP)
    } else {
        events
    }
}

/// How many events had rolled off, after `more` of them.
pub open spec fn rolled_off(before: u64, more: nat) -> u64 {
    if before + more > u64::MAX {
        u64::MAX
    } else {
        (before + more) as u64
    }
}

/// Whether a capsule is `c` with one more event.
pub open spec fn is_recorded(
    r: Capsule,
    c: Capsule,
    kind: AuditEventKind,
    previous: Option<CapsuleState>,
    attributes: Links,
    at: u64,
) -> bool {
    &&& r == (Capsule {
        audit_events: r.audit_events,
        audit_events_dropped: r.audit_events_dropped,
        ..c
    })
    &&& r.audit_events@.len() > 0
    &&& is_event_of(r.audit_events@.last(), c, kind, previous, attributes, at)
    &&& r.audit_events@ == retained(c.audit_events@.push(r.audit_events@.last()))
    &&& r.audit_events_dropped == rolled_off(
        c.audit_events_dropped,
        (c.audit_events@.len() + 1 - r.audit_events@.len()) as nat,
    )
}

/// Record a transition of a capsule into its present state.
pub fn record_event(
    capsule: Capsule,
    kind: AuditEventKind,
    previous: Option<CapsuleState>,
    attributes: Links,
    at: u64,
) -> (r: Capsule)
    ensures
        is_recorded(r, capsule, kind, previous, attributes, at),
{
    let mut c = capsule;
    let event = AuditEvent {
        schema_version: AUDIT_SCHEMA_VERSION,
        event_id: new_event_id(),
        occurred_at_unix: at,
        kind,
        capsule_id: Some(c.id.clone()),
        project_key: Some(c.project_key.clone()),
        previous_state: previous,
        state: Some(c.state),
        attributes,
    };
    let mut events = c.audit_events;
    events.push(event);
    let ghost all = events@;
    proof {
        assert(all.skip(0) =~= all);
    }
    let mut dropped: u64 = c.audit_events_dropped;
    while events.len() > AUDIT_EVENT_CAP
        invariant
            events@.len() <= all.len(),
            events@ == all.skip(all.len() - events@.len()),
            all.len() > 0,
            events@.len() >= AUDIT_EVENT_CAP || events@ == all,
            dropped == rolled_off(capsule.audit_events_dropped, (all.len() - events@.len()) as nat),
        decreases events.len(),
    {
        let ghost before = events@;
        let _oldest = events.remove(0);
        proof {
            assert(events@ =~= before.skip(1));
            assert(before.skip(1) =~= all.skip(all.len() - events@.len()));
        }
        if dropped < u64::MAX {
            dropped += 1;
        }
    }
    proof {
        assert(events@.last() == all.last());
    }
    c.audit_events = events;
    c.audit_events_dropped = dropped;
    c
}

/// One event with what decides its place among others of the same time.
#[derive(Debug, PartialEq, Eq)]
pub struct SequencedEvent {
    /// The capsule it belongs to.
    pub capsule_id: String,
    /// Its position within that capsule.
    pub sequence: usize,
    /// The event.
    pub event: AuditEvent,
}

impl Ordered for SequencedEvent {
    open spec fn precedes(self, other: Self) -> bool {
        if self.event.occurred_at_unix != other.event.occurred_at_unix {
            self.event.occurred_at_unix < other.event.occurred_at_unix
        } else if self.capsule_id@ != other.capsule_id@ {
            bytes::bytes_before(encode_utf8(self.capsule_id@), encode_utf8(other.capsule_id@))
        } else {
            self.sequence < other.sequence
        }
    }

    fn before(&self, other: &Self) -> (r: bool) {
        if self.event.occurred_at_unix != other.event.occurred_at_unix {
            self.event.occurred_at_unix < other.event.occurred_at_unix
        } else if !text::same_text(self.capsule_id.as_str(), other.capsule_id.as_str()) {
            bytes::before(self.capsule_id.as_str().as_bytes(), other.capsule_id.as_str().as_bytes())
        } else {
            self.sequence < other.sequence
        }
    }
}

/// Whether a row holds the events of the capsules, in their order, each with
/// its capsule and position.
pub open spec fn is_sequence_of(rows: Seq<SequencedEvent>, capsules: Seq<Capsule>) -> bool
    decreases capsules.len(),
{
    if capsules.len() == 0 {
        rows.len() == 0
    } else {
        let c = capsules.last();
        let n = rows.len() - c.audit_events@.len();
        &&& n >= 0
        &&& is_sequence_of(rows.take(n), capsules.drop_last())
        &&& forall|k: int|
            0 <= k < c.audit_events@.len() ==> {
                &&& (#[trigger] rows[n + k]).capsule_id == c.id
                &&& rows[n + k].sequence == k
                &&& rows[n + k].event == c.audit_events@[k]
            }
    }
}

/// The events of a row.
pub open spec fn events_in(rows: Seq<SequencedEvent>) -> Seq<AuditEvent> {
    rows.map_values(|s: SequencedEvent| s.event)
}

fn push_events(rows: Vec<SequencedEvent>, id: String, events: Vec<AuditEvent>) -> (r: Vec<
    SequencedEvent,
>)
    ensures
        r@.len() == rows@.len() + events@.len(),
        r@.take(rows@.len() as int) == rows@,
        forall|k: int|
            0 <= k < events@.len() ==> {
                &&& (#[trigger] r@[rows@.len() + k]).capsule_id == id
                &&& r@[rows@.len() + k].sequence == k
                &&& r@[rows@.len() + k].event == events@[k]
            },
    decreases events@.len(),
{
    let mut todo = events;
    let event = match todo.pop() {
        None => {
            proof {
                assert(rows@.take(rows@.len() as int) =~= rows@);
            }
            return rows;
        },
        Some(event) => event,
    };
    let sequence: usize = todo.len();
    proof {
        assert(todo@ =~= events@.drop_last());
        assert(event == events@.last());
    }
    let mut r = push_events(rows, id.clone(), todo);
    let ghost before = r@;
    r.push(SequencedEvent { capsule_id: id, sequence, event });
    proof {
        assert(r@.take(rows@.len() as int) =~= before.take(rows@.len() as int));
        assert forall|k: int| 0 <= k < events@.len() implies {
            &&& (#[trigger] r@[rows@.len() + k]).capsule_id == id
            &&& r@[rows@.len() + k].sequence == k
            &&& r@[rows@.len() + k].event == events@[k]
        } by {
            if k < events@.len() - 1 {
                assert(r@[rows@.len() + k] == before[rows@.len() + k]);
                assert(todo@[k] == events@[k]);
            }
        }
    }
    r
}

fn sequence_events(capsules: Vec<Capsule>) -> (r: Vec<SequencedEvent>)
    ensures
        is_sequence_of(r@, capsules@),
    decreases capsules@.len(),
{
    let mut todo = capsules;
    let last = match todo.pop() {
        None => {
            return Vec::new();
        },
        Some(last) => last,
    };
    proof {
        assert(todo@ =~= capsules@.drop_last());
        assert(last == capsules@.last());
    }
    let rows = sequence_events(todo);
    push_events(rows, last.id, last.audit_events)
}

fn strip(rows: Vec<SequencedEvent>) -> (r: Vec<AuditEvent>)
    ensures
        r@ == events_in(rows@),
    decreases rows@.len(),
{
    let mut todo = rows;
    let last = match todo.pop() {
        None => {
            let r: Vec<AuditEvent> = Vec::new();
            proof {
                assert(r@ =~= events_in(rows@));
            }
            return r;
        },
        Some(last) => last,
    };
    proof {
        assert(todo@ =~= rows@.drop_last());
        assert(last == rows@.last());
    }
    let mut r = strip(todo);
    r.push(last.event);
    proof {
        assert(r@ =~= events_in(rows@));
    }
    r
}

impl CapsuleManager {
    /// Retained lifecycle events of one capsule, oldest first.
    pub fn audit_events(&self, id: &str, stored: std::result::Result<Capsule, Error>) -> (r:
        std::result::Result<Vec<AuditEvent>, Error>)
        ensures
            match manager::show_check(self.store.root@, id@, stored) {
                Ok(_) => r == Ok::<Vec<AuditEvent>, Error>(stored->Ok_0.audit_events),
                Err(e) => r matches Err(found) && found@ == e,
            },
    {
        match self.show(id, stored) {
            Err(e) => Err(e),
            Ok(c) => Ok(c.audit_events),
        }
    }

    /// Retained lifecycle events of all capsules, merged in time order; at the
    /// same time by capsule, and within a capsule oldest first.
    pub fn audit_log(&self, capsules: std::result::Result<Vec<Capsule>, Error>) -> (r:
        std::result::Result<Vec<AuditEvent>, Error>)
        ensures
            match capsules {
                Err(e) => r matches Err(found) && found@ == e@,
                Ok(all) => r matches Ok(events) && exists|rows: Seq<SequencedEvent>| #[trigger]
                    is_sequence_of(rows, all@) && events@ == events_in(order::sorted(rows)),
            },
    {
        match capsules {
            Err(e) => Err(e),
            Ok(all) => {
                let rows = sequence_events(all);
                proof {
                    assert(is_sequence_of(rows@, all@));
                }
                Ok(strip(order::sort(rows)))
            },
        }
    }
}

/// The history of a capsule is bounded: recording keeps at most the bound, and
/// no event is lost without being counted.
pub proof fn law_history_is_bounded(
    r: Capsule,
    c: Capsule,
    kind: AuditEventKind,
    previous: Option<CapsuleState>,
    attributes: Links,
    at: u64,
)
    requires
        is_recorded(r, c, kind, previous, attributes, at),
        c.audit_events@.len() <= AUDIT_EVENT_CAP,
    ensures
        r.audit_events@.len() <= AUDIT_EVENT_CAP,
        c.audit_events_dropped < u64::MAX ==> r.audit_events@.len() + r.audit_events_dropped
            == c.audit_events@.len() + c.audit_events_dropped + 1,
{
}

/// Recording a transition changes nothing else in a capsule's record.
pub proof fn law_history_changes_nothing_else(
    r: Capsule,
    c: Capsule,
    kind: AuditEventKind,
    previous: Option<CapsuleState>,
    attributes: Links,
    at: u64,
)
    requires
        is_recorded(r, c, kind, previous, attributes, at),
    ensures
        r.state == c.state,
        r.result == c.result,
        crate::store::journals_consistent(r) == crate::store::journals_consistent(c),
{
}

proof fn lemma_event_order(a: SequencedEvent, b: SequencedEvent, c: SequencedEvent)
    ensures
        a.precedes(b) ==> !b.precedes(a),
        !b.precedes(a) && !c.precedes(b) ==> !c.precedes(a),
{
    let (x, y, z) = (encode_utf8(a.capsule_id@), encode_utf8(b.capsule_id@), encode_utf8(c.capsule_id@));
    if bytes::bytes_before(x, y) && bytes::bytes_before(y, x) {
        bytes::lemma_before_transitive(x, y, x);
        bytes::lemma_before_irreflexive(x);
    }
    bytes::lemma_before_irreflexive(x);
    bytes::lemma_before_irreflexive(y);
    bytes::lemma_before_irreflexive(z);
    bytes::lemma_before_total(x, y);
    bytes::lemma_before_total(y, z);
    if bytes::bytes_before(x, y) && bytes::bytes_before(y, z) {
        bytes::lemma_before_transitive(x, y, z);
    }
    if bytes::bytes_before(z, x) && bytes::bytes_before(x, y) {
        bytes::lemma_before_transitive(z, x, y);
    }
    if bytes::bytes_before(x, z) && bytes::bytes_before(z, x) {
        bytes::lemma_before_transitive(x, z, x);
    }
    if bytes::bytes_before(y, z) && bytes::bytes_before(z, y) {
        bytes::lemma_before_transitive(y, z, y);
    }
    if bytes::bytes_before(y, z) && bytes::bytes_before(z, x) {
        bytes::lemma_before_transitive(y, z, x);
    }
    if x == y {
        crate::digest::lemma_encode_utf8_injective(a.capsule_id@, b.capsule_id@);
    }
    if y == z {
        crate::digest::lemma_encode_utf8_injective(b.capsule_id@, c.capsule_id@);
    }
    if x == z {
        crate::digest::lemma_encode_utf8_injective(a.capsule_id@, c.capsule_id@);
    }
}

/// The merged history is complete and in time order; events of one time are
/// ordered by their capsule, and those of one capsule keep their stored order.
pub proof fn law_audit_log_is_complete_and_ordered(rows: Seq<SequencedEvent>, i: int, j: int)
    requires
        0 <= i < j < rows.len(),
    ensures
        order::sorted(rows).to_multiset() == rows.to_multiset(),
        order::sorted(rows)[i].event.occurred_at_unix
            <= order::sorted(rows)[j].event.occurred_at_unix,
        order::sorted(rows)[i].event.occurred_at_unix
            == order::sorted(rows)[j].event.occurred_at_unix ==> {
            let (earlier, later) = (order::sorted(rows)[i], order::sorted(rows)[j]);
            if earlier.capsule_id@ == later.capsule_id@ {
                earlier.sequence <= later.sequence
            } else {
                bytes::bytes_before(
                    encode_utf8(earlier.capsule_id@),
                    encode_utf8(later.capsule_id@),
                )
            }
        },
{
    order::lemma_sorted_is_permutation(rows);
    assert forall|a: SequencedEvent, b: SequencedEvent| #[trigger]
        a.precedes(b) implies !b.precedes(a) by {
        lemma_event_order(a, b, a);
    }
    assert forall|a: SequencedEvent, b: SequencedEvent, c: SequencedEvent|
        !(#[trigger] b.precedes(a)) && !(#[trigger] c.precedes(b)) implies !c.precedes(a) by {
        lemma_event_order(a, b, c);
    }
    order::lemma_sorted_in_order(rows);
    let (earlier, later) = (order::sorted(rows)[i], order::sorted(rows)[j]);
    assert(!later.precedes(earlier));
    if earlier.capsule_id@ != later.capsule_id@ {
        let (x, y) = (encode_utf8(earlier.capsule_id@), encode_utf8(later.capsule_id@));
        bytes::lemma_before_total(x, y);
        if x == y {
            crate::digest::lemma_encode_utf8_injective(earlier.capsule_id@, later.capsule_id@);
        }
    }
}

} // verus!
