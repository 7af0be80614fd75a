//! What a listing holds.

use vstd::prelude::*;
use vstd::string::*;
use vstd::utf8::*;

use crate::error::Error;
use crate::laws::records;
use crate::manager::CapsuleManager;
use crate::model::{Capsule, CapsuleListing, CapsuleSummary, UnreadableRecord};
use crate::order::Ordered;
use crate::query::StoredEntry;
use crate::recover::RecoveryVisit;
use crate::{bytes, laws, order, query, record, recover, store, validate};

verus! {

/// Whether an entry is a capsule's directory.
pub open spec fn is_capsule(e: StoredEntry) -> bool {
    e.directory && (e.name matches Some(n) && laws::is_id(n@))
}

/// Whether an entry is a capsule's directory and holds its record.
pub open spec fn is_readable(root: Seq<u8>, e: StoredEntry) -> bool {
    &&& is_capsule(e)
    &&& e.has_manifest == Ok::<bool, Error>(true)
    &&& records::is_found(root, e.name->0@, e.manifest)
}

/// Whether an entry is a capsule's directory that has a manifest, or may have
/// one, but no record that is accepted.
pub open spec fn is_unreadable(root: Seq<u8>, e: StoredEntry) -> bool {
    &&& is_capsule(e)
    &&& e.has_manifest != Ok::<bool, Error>(false)
    &&& !is_readable(root, e)
}

/// The capsules that entries hold, in the order of the entries.
pub open spec fn held(root: Seq<u8>, entries: Seq<StoredEntry>) -> Seq<Capsule> {
    entries.filter(|e: StoredEntry| is_readable(root, e)).map_values(
        |e: StoredEntry| e.manifest->Ok_0,
    )
}

/// Whether a summary says what a capsule's record says.
pub open spec fn sums_up(s: CapsuleSummary, c: Capsule) -> bool {
    &&& s.id@ == c.id@
    &&& laws::opt(s.label) == laws::opt(c.label)
    &&& s.state == c.state
    &&& s.workspace_path.bytes@ == c.workspace_path.bytes@
    &&& s.base_commit@ == c.base_commit@
    &&& s.updated_at_unix == c.updated_at_unix
}

/// Whether a row holds exactly the capsules of another, one by one and in order
/// of their identifiers.
pub open spec fn is_in_order(row: Seq<Capsule>, all: Seq<Capsule>) -> bool {
    &&& row.to_multiset() == all.to_multiset()
    &&& row.len() == all.len()
    &&& forall|i: int, j: int|
        0 <= i < j < row.len() ==> !laws::stands_before(
            encode_utf8((#[trigger] row[j]).id@),
            encode_utf8((#[trigger] row[i]).id@),
        )
}

proof fn lemma_entry(root: Seq<u8>, before: Seq<Capsule>, e: StoredEntry)
    ensures
        query::with_entry(root, before, e) is Err <==> is_unreadable(root, e),
        is_readable(root, e) ==> query::with_entry(root, before, e) == Ok::<
            Seq<Capsule>,
            crate::error::ErrorView,
        >(before.push(e.manifest->Ok_0)),
        !is_readable(root, e) && !is_unreadable(root, e) ==> query::with_entry(root, before, e)
            == Ok::<Seq<Capsule>, crate::error::ErrorView>(before),
{
    if let Some(n) = e.name {
        laws::lemma_shapes(n@);
        records::lemma_found(root, n@, e.manifest);
    }
}

proof fn lemma_held(root: Seq<u8>, entries: Seq<StoredEntry>)
    ensures
        query::readable_of(root, entries) == held(root, entries),
        query::capsules_of(root, entries) is Ok <==> forall|i: int|
            0 <= i < entries.len() ==> !is_unreadable(root, #[trigger] entries[i]),
        query::capsules_of(root, entries) matches Ok(all) ==> all == held(root, entries),
        query::unreadable_of(root, entries).len() == entries.filter(
            |e: StoredEntry| is_unreadable(root, e),
        ).len(),
        forall|i: int|
            0 <= i < query::unreadable_of(root, entries).len() ==> (
            #[trigger] query::unreadable_of(root, entries)[i]).id == entries.filter(
                |e: StoredEntry| is_unreadable(root, e),
            )[i].name->0@,
    decreases entries.len(),
{
    reveal(Seq::filter);
    let keep = |e: StoredEntry| is_readable(root, e);
    let lost = |e: StoredEntry| is_unreadable(root, e);
    if entries.len() == 0 {
        assert(held(root, entries) =~= Seq::<Capsule>::empty());
    } else {
        let front = entries.drop_last();
        let last = entries.last();
        lemma_held(root, front);
        lemma_entry(root, held(root, front), last);
        lemma_entry(root, Seq::empty(), last);
        assert(held(root, entries) =~= if is_readable(root, last) {
            held(root, front).push(last.manifest->Ok_0)
        } else {
            held(root, front)
        });
        if query::capsules_of(root, entries) is Ok {
            assert forall|i: int| 0 <= i < entries.len() implies !is_unreadable(
                root,
                #[trigger] entries[i],
            ) by {
                if i < front.len() {
                    assert(front[i] == entries[i]);
                }
            }
        }
        if forall|i: int| 0 <= i < entries.len() ==> !is_unreadable(root, #[trigger] entries[i]) {
            assert forall|i: int| 0 <= i < front.len() implies !is_unreadable(
                root,
                #[trigger] front[i],
            ) by {
                assert(front[i] == entries[i]);
            }
            assert(entries[entries.len() - 1] == last);
        }
        let all = query::unreadable_of(root, entries);
        let some = query::unreadable_of(root, front);
        assert forall|i: int| 0 <= i < all.len() implies (#[trigger] all[i]).id == entries.filter(
            lost,
        )[i].name->0@ by {
            if i < some.len() {
                assert(all[i] == some[i]);
                assert(some[i].id == front.filter(lost)[i].name->0@);
            }
        }
    }
}

proof fn lemma_in_order(all: Seq<Capsule>)
    ensures
        is_in_order(order::sorted(all), all),
{
    order::lemma_sorted_is_permutation(all);
    let row = order::sorted(all);
    assert forall|i: int, j: int| 0 <= i < j < row.len() implies !laws::stands_before(
        encode_utf8((#[trigger] row[j]).id@),
        encode_utf8((#[trigger] row[i]).id@),
    ) by {
        query::law_listing_is_ordered(all, i, j);
        laws::lemma_stands_before(encode_utf8(row[j].id@), encode_utf8(row[i].id@));
    }
}

/// A listing holds every capsule that is stored, once, in the order of their
/// identifiers. It fails where a record cannot be read, instead of leaving it
/// out.
pub proof fn law_listings_leave_nothing_out(
    m: CapsuleManager,
    entries: Vec<StoredEntry>,
    capsules: std::result::Result<Vec<Capsule>, Error>,
    summaries: std::result::Result<Vec<CapsuleSummary>, Error>,
    sweep: std::result::Result<Vec<RecoveryVisit>, Error>,
)
    requires
        call_ensures(CapsuleManager::list_capsules, (&m, entries), capsules),
        call_ensures(CapsuleManager::list, (&m, entries), summaries),
        call_ensures(CapsuleManager::recover, (&m, entries), sweep),
    ensures
        capsules is Ok <==> forall|i: int|
            0 <= i < entries@.len() ==> !is_unreadable(m.store.root.bytes@, #[trigger] entries@[i]),
        summaries is Ok <==> capsules is Ok,
        sweep is Ok <==> capsules is Ok,
        capsules matches Ok(row) ==> is_in_order(row@, held(m.store.root.bytes@, entries@)),
        summaries matches Ok(found) ==> found@.len() == capsules->Ok_0@.len() && forall|i: int|
            0 <= i < found@.len() ==> sums_up(#[trigger] found@[i], capsules->Ok_0@[i]),
        sweep matches Ok(visits) ==> visits@.len() == capsules->Ok_0@.len() && forall|i: int|
            0 <= i < visits@.len() ==> (#[trigger] visits@[i]).id@ == capsules->Ok_0@[i].id@
                && visits@[i].project_key@ == capsules->Ok_0@[i].project_key@,
{
    lemma_held(m.store.root.bytes@, entries@);
    lemma_in_order(held(m.store.root.bytes@, entries@));
    if let Ok(found) = summaries {
        assert forall|i: int| 0 <= i < found@.len() implies sums_up(
            #[trigger] found@[i],
            capsules->Ok_0@[i],
        ) by {
            assert(found@[i].summarizes(capsules->Ok_0@[i]));
        }
    }
}

/// A reporting listing never fails: it holds every capsule that can be read, as
/// a listing does, and names every one that cannot.
pub proof fn law_reporting_listings_name_what_cannot_be_read(
    m: CapsuleManager,
    entries: Vec<StoredEntry>,
    r: CapsuleListing,
)
    requires
        call_ensures(CapsuleManager::list_reporting, (&m, entries), r),
    ensures
        exists|row: Seq<Capsule>| #[trigger]
            is_in_order(row, held(m.store.root.bytes@, entries@)) && r.capsules@.len() == row.len()
                && forall|i: int|
                0 <= i < row.len() ==> sums_up(#[trigger] r.capsules@[i], row[i]),
        r.unreadable@.len() == entries@.filter(
            |e: StoredEntry| is_unreadable(m.store.root.bytes@, e),
        ).len(),
        forall|i: int|
            0 <= i < r.unreadable@.len() ==> is_named(
                (#[trigger] r.unreadable@[i]).id@,
                m.store.root.bytes@,
                entries@,
            ),
{
    let root = m.store.root.bytes@;
    lemma_held(root, entries@);
    lemma_in_order(held(root, entries@));
    let row = order::sorted(held(root, entries@));
    assert forall|i: int| 0 <= i < row.len() implies sums_up(#[trigger] r.capsules@[i], row[i]) by {
        assert(r.capsules@[i].summarizes(row[i]));
    }
    assert(is_in_order(row, held(root, entries@)));
    let unsorted = choose|unsorted: Seq<UnreadableRecord>|
        record::views(unsorted) == query::unreadable_of(root, entries@) && r.unreadable@
            == #[trigger] order::sorted(unsorted);
    order::lemma_sorted_is_permutation(unsorted);
    laws::lemma_views(unsorted);
    let lost = |e: StoredEntry| is_unreadable(root, e);
    assert forall|i: int| 0 <= i < r.unreadable@.len() implies is_named(
        (#[trigger] r.unreadable@[i]).id@,
        root,
        entries@,
    ) by {
        order::lemma_sorted_contains(unsorted, i);
        let k = unsorted.index_of(r.unreadable@[i]);
        assert(record::views(unsorted)[k] == unsorted[k]@);
        let some = entries@.filter(lost);
        assert(query::unreadable_of(root, entries@)[k].id == some[k].name->0@);
        assert(some.contains(some[k]));
        entries@.lemma_filter_contains_rev(lost, some[k]);
        entries@.lemma_filter_pred(lost, k);
        let n = entries@.index_of(some[k]);
        assert(is_unreadable(root, entries@[n]));
    }
}

/// Whether an identifier is that of an entry whose record cannot be read.
pub open spec fn is_named(id: Seq<char>, root: Seq<u8>, entries: Seq<StoredEntry>) -> bool {
    exists|i: int|
        0 <= i < entries.len() && is_unreadable(root, #[trigger] entries[i])
            && entries[i].name->0@ == id
}

} // verus!
