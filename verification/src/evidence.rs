//! What a row of verification records amounts to.
//!
//! Three requirements can be made of it, and they are independent: that every
//! record passed, that some passing record is bound to a given patch, and that
//! some such record was executed rather than claimed.

use vstd::prelude::*;
use vstd::string::*;

use crate::model::{Evidence, EvidenceView};
use crate::{record, store, text};

verus! {

/// Whether there are records and every one of them passed.
pub open spec fn all_passed(evidence: Seq<EvidenceView>) -> bool {
    evidence.len() > 0 && forall|i: int|
        0 <= i < evidence.len() ==> (#[trigger] evidence[i]).exit_code == 0
}

/// Whether one record passed and is bound to a patch.
pub open spec fn passed_for(e: EvidenceView, patch_sha256: Seq<char>) -> bool {
    e.exit_code == 0 && e.patch_sha256 == patch_sha256
}

/// Whether some passing record is bound to a patch.
pub open spec fn some_current(evidence: Seq<EvidenceView>, patch_sha256: Seq<char>) -> bool {
    exists|i: int| 0 <= i < evidence.len() && passed_for(#[trigger] evidence[i], patch_sha256)
}

/// Whether some executed, passing record is bound to a patch.
pub open spec fn some_executed(evidence: Seq<EvidenceView>, patch_sha256: Seq<char>) -> bool {
    exists|i: int|
        0 <= i < evidence.len() && (#[trigger] evidence[i]).executed && passed_for(
            evidence[i],
            patch_sha256,
        )
}

/// Records that were only claimed never meet the requirement of an executed
/// one, whatever they claim.
pub proof fn law_claims_never_count_as_executed(
    evidence: Seq<EvidenceView>,
    patch_sha256: Seq<char>,
)
    requires
        forall|i: int| 0 <= i < evidence.len() ==> !(#[trigger] evidence[i]).executed,
    ensures
        !some_executed(evidence, patch_sha256),
{
}

/// A record bound to another patch never meets the requirement of a current or
/// executed one.
pub proof fn law_stale_records_never_count(evidence: Seq<EvidenceView>, patch_sha256: Seq<char>)
    requires
        forall|i: int|
            0 <= i < evidence.len() ==> (#[trigger] evidence[i]).patch_sha256 != patch_sha256,
    ensures
        !some_current(evidence, patch_sha256),
        !some_executed(evidence, patch_sha256),
{
}

/// Earlier failures do not take away a passing executed record: the executed
/// requirement is met by any history that contains one.
pub proof fn law_earlier_records_do_not_spoil_execution(
    before: Seq<EvidenceView>,
    e: EvidenceView,
    after: Seq<EvidenceView>,
    patch_sha256: Seq<char>,
)
    requires
        e.executed,
        passed_for(e, patch_sha256),
    ensures
        some_executed(before.push(e) + after, patch_sha256),
        some_current(before.push(e) + after, patch_sha256),
{
    let all = before.push(e) + after;
    assert(all[before.len() as int] == e);
}

/// Test for [`all_passed`].
pub fn every_passed(evidence: &Vec<Evidence>) -> (r: bool)
    ensures
        r == all_passed(record::views(evidence@)),
{
    if evidence.len() == 0 {
        return false;
    }
    let ghost all = record::views(evidence@);
    let mut i: usize = 0;
    while i < evidence.len()
        invariant
            i <= evidence.len(),
            all == record::views(evidence@),
            forall|j: int| 0 <= j < i ==> (#[trigger] all[j]).exit_code == 0,
        decreases evidence.len() - i,
    {
        assert(all[i as int] == evidence@[i as int]@);
        if evidence[i].exit_code != 0 {
            return false;
        }
        i += 1;
    }
    true
}

/// Test for [`some_current`].
pub fn any_current(evidence: &Vec<Evidence>, patch_sha256: &str) -> (r: bool)
    ensures
        r == some_current(record::views(evidence@), patch_sha256@),
{
    let ghost all = record::views(evidence@);
    let mut i: usize = 0;
    while i < evidence.len()
        invariant
            i <= evidence.len(),
            all == record::views(evidence@),
            forall|j: int| 0 <= j < i ==> !passed_for(#[trigger] all[j], patch_sha256@),
        decreases evidence.len() - i,
    {
        assert(all[i as int] == evidence@[i as int]@);
        if evidence[i].exit_code == 0 && text::same_text(
            evidence[i].patch_sha256.as_str(),
            patch_sha256,
        ) {
            return true;
        }
        i += 1;
    }
    false
}

/// Test for [`some_executed`].
pub fn any_executed(evidence: &Vec<Evidence>, patch_sha256: &str) -> (r: bool)
    ensures
        r == some_executed(record::views(evidence@), patch_sha256@),
{
    let ghost all = record::views(evidence@);
    let mut i: usize = 0;
    while i < evidence.len()
        invariant
            i <= evidence.len(),
            all == record::views(evidence@),
            forall|j: int|
                0 <= j < i ==> !((#[trigger] all[j]).executed && passed_for(all[j], patch_sha256@)),
        decreases evidence.len() - i,
    {
        assert(all[i as int] == evidence@[i as int]@);
        if evidence[i].executed && evidence[i].exit_code == 0 && text::same_text(
            evidence[i].patch_sha256.as_str(),
            patch_sha256,
        ) {
            assert(all[i as int].executed && passed_for(all[i as int], patch_sha256@));
            return true;
        }
        i += 1;
    }
    false
}

/// How many records failed.
pub open spec fn failed_of(evidence: Seq<EvidenceView>) -> nat {
    evidence.filter(|e: EvidenceView| e.exit_code != 0).len()
}

/// Count the records that failed.
pub fn count_failed(evidence: &Vec<Evidence>) -> (r: usize)
    ensures
        r == failed_of(record::views(evidence@)),
{
    let ghost all = record::views(evidence@);
    let keep = Ghost(|e: EvidenceView| e.exit_code != 0);
    let mut n: usize = 0;
    let mut i: usize = 0;
    proof {
        reveal(Seq::filter);
        assert(all.take(0).filter(keep@) =~= Seq::<EvidenceView>::empty());
    }
    while i < evidence.len()
        invariant
            i <= evidence.len(),
            n <= i,
            all == record::views(evidence@),
            keep@ == (|e: EvidenceView| e.exit_code != 0),
            n == all.take(i as int).filter(keep@).len(),
        decreases evidence.len() - i,
    {
        proof {
            reveal(Seq::filter);
            assert(all.take(i + 1).drop_last() =~= all.take(i as int));
            assert(all.take(i + 1).last() == evidence@[i as int]@);
        }
        if evidence[i].exit_code != 0 {
            n += 1;
        }
        i += 1;
    }
    proof {
        assert(all.take(all.len() as int) =~= all);
    }
    n
}

/// Whether every record of a row is coherent, over what the records hold.
pub open spec fn coherent_views(evidence: Seq<EvidenceView>) -> bool {
    forall|i: int| 0 <= i < evidence.len() ==> store::is_coherent(#[trigger] evidence[i])
}

/// Coherence of a row is coherence of what its records hold.
pub proof fn lemma_coherent_views(evidence: Seq<Evidence>)
    ensures
        store::all_coherent(evidence) == coherent_views(record::views(evidence)),
{
    let all = record::views(evidence);
    if store::all_coherent(evidence) {
        assert forall|i: int| 0 <= i < all.len() implies store::is_coherent(#[trigger] all[i]) by {
            assert(all[i] == evidence[i]@);
        }
    }
    if coherent_views(all) {
        assert forall|i: int| 0 <= i < evidence.len() implies store::is_coherent(
            (#[trigger] evidence[i])@,
        ) by {
            assert(all[i] == evidence[i]@);
        }
    }
}

} // verus!
