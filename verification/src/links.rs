//! Opaque caller metadata: text values under text keys.
//!
//! Links are kept in the order of their keys' bytes, each key once, so that
//! what they are does not depend on the order in which they were added.

use vstd::prelude::*;
use vstd::string::*;
use vstd::utf8::*;

use crate::{bytes, digest, text};

verus! {

/// One link.
#[derive(Debug, PartialEq, Eq)]
pub struct Link {
    /// Its key.
    pub key: String,
    /// Its value.
    pub value: String,
}

/// Links in key order, each key once.
#[derive(Debug, PartialEq, Eq)]
pub struct Links {
    entries: Vec<Link>,
}

/// A key with its value.
pub type LinkView = (Seq<char>, Seq<char>);

/// Whether one key stands before another.
pub open spec fn key_before(left: Seq<char>, right: Seq<char>) -> bool {
    bytes::bytes_before(encode_utf8(left), encode_utf8(right))
}

/// Whether keys strictly ascend.
pub open spec fn ascending(links: Seq<LinkView>) -> bool {
    forall|i: int, j: int|
        0 <= i < j < links.len() ==> key_before((#[trigger] links[i]).0, (#[trigger] links[j]).0)
}

/// Whether two rows hold the same links, in whatever order.
pub open spec fn same_links(left: Seq<LinkView>, right: Seq<LinkView>) -> bool {
    forall|p: LinkView| #[trigger] left.contains(p) <==> right.contains(p)
}

impl View for Links {
    type V = Seq<LinkView>;

    closed spec fn view(&self) -> Seq<LinkView> {
        self.entries@.map_values(|l: Link| (l.key@, l.value@))
    }
}

/// The value under `key`, if there is one.
pub open spec fn lookup(links: Seq<LinkView>, key: Seq<char>) -> Option<Seq<char>> {
    if exists|i: int| 0 <= i < links.len() && (#[trigger] links[i]).0 == key {
        let i = choose|i: int| 0 <= i < links.len() && (#[trigger] links[i]).0 == key;
        Some(links[i].1)
    } else {
        None
    }
}

/// In ascending rows a key occurs once.
pub proof fn lemma_ascending_unique(links: Seq<LinkView>, i: int, j: int)
    requires
        ascending(links),
        0 <= i < links.len(),
        0 <= j < links.len(),
        links[i].0 == links[j].0,
    ensures
        i == j,
{
    if i < j {
        bytes::lemma_before_irreflexive(encode_utf8(links[i].0));
    } else if j < i {
        bytes::lemma_before_irreflexive(encode_utf8(links[i].0));
    }
}

/// Links are canonical: rows in key order that hold the same links are equal,
/// so the order in which links were added leaves no trace.
pub proof fn law_links_are_canonical(left: Seq<LinkView>, right: Seq<LinkView>)
    requires
        ascending(left),
        ascending(right),
        same_links(left, right),
    ensures
        left == right,
    decreases left.len(),
{
    if left.len() == 0 {
        if right.len() > 0 {
            assert(right.contains(right[0]));
            assert(left.contains(right[0]));
        }
        assert(left =~= right);
    } else {
        assert(left.contains(left.last()));
        assert(right.len() > 0);
        lemma_last_is_greatest(left, right);
        lemma_last_is_greatest(right, left);
        let l = left.last();
        let r = right.last();
        if l.0 != r.0 {
            assert(false) by {
                bytes::lemma_before_transitive(
                    encode_utf8(l.0),
                    encode_utf8(r.0),
                    encode_utf8(l.0),
                );
                bytes::lemma_before_irreflexive(encode_utf8(l.0));
            }
        }
        assert(l == r) by {
            assert(right.contains(l));
            let i = right.index_of(l);
            lemma_ascending_unique(right, i, right.len() - 1);
        }
        let left2 = left.drop_last();
        let right2 = right.drop_last();
        assert(ascending(left2));
        assert(ascending(right2));
        assert forall|p: LinkView| #[trigger] left2.contains(p) <==> right2.contains(p) by {
            lemma_contains_before_last(left, p);
            lemma_contains_before_last(right, p);
            assert(left.contains(p) <==> right.contains(p));
        }
        law_links_are_canonical(left2, right2);
        assert(left =~= left2.push(l));
        assert(right =~= right2.push(r));
    }
}

proof fn lemma_contains_before_last(links: Seq<LinkView>, p: LinkView)
    requires
        ascending(links),
        links.len() > 0,
    ensures
        links.drop_last().contains(p) <==> links.contains(p) && p != links.last(),
{
    if links.contains(p) && p != links.last() {
        let i = links.index_of(p);
        assert(links[i] == p);
        assert(links.drop_last()[i] == p);
    }
    if links.drop_last().contains(p) {
        let i = links.drop_last().index_of(p);
        assert(links.drop_last()[i] == p);
        assert(links[i] == p);
        if p == links.last() {
            lemma_ascending_unique(links, i, links.len() - 1);
        }
    }
}

proof fn lemma_last_is_greatest(left: Seq<LinkView>, right: Seq<LinkView>)
    requires
        ascending(left),
        ascending(right),
        same_links(left, right),
        left.len() > 0,
        right.len() > 0,
    ensures
        left.last().0 == right.last().0 || key_before(left.last().0, right.last().0),
{
    assert(left.contains(left.last()));
    assert(right.contains(left.last()));
    let i = right.index_of(left.last());
    assert(right[i] == left.last());
    if i < right.len() - 1 {
        assert(key_before(right[i].0, right[right.len() - 1].0));
    }
}

impl Links {
    /// Keys ascend, so each occurs once.
    #[verifier::type_invariant]
    pub closed spec fn in_key_order(self) -> bool {
        ascending(self@)
    }

    /// No links.
    pub fn new() -> (r: Links)
        ensures
            r@ == Seq::<LinkView>::empty(),
    {
        let entries: Vec<Link> = Vec::new();
        proof {
            assert(entries@.map_values(|l: Link| (l.key@, l.value@)) == Seq::<LinkView>::empty());
        }
        Links { entries }
    }

    /// One link.
    pub fn single(key: &str, value: &str) -> (r: Links)
        ensures
            r@ == seq![(key@, value@)],
    {
        let mut entries: Vec<Link> = Vec::new();
        entries.push(Link { key: key.to_owned(), value: value.to_owned() });
        proof {
            assert(entries@.map_values(|l: Link| (l.key@, l.value@)) =~= seq![(key@, value@)]);
        }
        Links { entries }
    }

    /// The number of links.
    pub fn len(&self) -> (r: usize)
        ensures
            r == self@.len(),
            ascending(self@),
    {
        proof {
            use_type_invariant(self);
        }
        self.entries.len()
    }

    /// The key of the link at `i`, in key order.
    pub fn key(&self, i: usize) -> (r: &str)
        requires
            i < self@.len(),
        ensures
            r@ == self@[i as int].0,
    {
        self.entries[i].key.as_str()
    }

    /// The value of the link at `i`, in key order.
    pub fn value(&self, i: usize) -> (r: &str)
        requires
            i < self@.len(),
        ensures
            r@ == self@[i as int].1,
    {
        self.entries[i].value.as_str()
    }

    /// The value under `key`, if there is one.
    pub fn get(&self, key: &str) -> (r: Option<&str>)
        ensures
            r is Some <==> lookup(self@, key@) is Some,
            r matches Some(v) ==> lookup(self@, key@) == Some(v@) && self@.contains((key@, v@)),
    {
        proof {
            use_type_invariant(self);
        }
        let mut i: usize = 0;
        while i < self.entries.len()
            invariant
                i <= self.entries.len(),
                self@.len() == self.entries.len(),
                ascending(self@),
                forall|j: int| 0 <= j < i ==> (#[trigger] self@[j]).0 != key@,
            decreases self.entries.len() - i,
        {
            proof {
                assert(self@[i as int].0 == self.entries@[i as int].key@);
            }
            if text::same_text(self.entries[i].key.as_str(), key) {
                proof {
                    let c = choose|c: int| 0 <= c < self@.len() && (#[trigger] self@[c]).0 == key@;
                    lemma_ascending_unique(self@, i as int, c);
                    assert(self@[i as int] == (key@, self@[i as int].1));
                }
                return Some(self.entries[i].value.as_str());
            }
            i += 1;
        }
        None
    }

    /// Put `value` under `key`, in place of a value already there, and say
    /// whether there was one.
    pub fn insert(&mut self, key: &str, value: &str) -> (replaced: bool)
        ensures
            replaced <==> lookup(old(self)@, key@) is Some,
            ascending(final(self)@),
            forall|p: LinkView| #[trigger]
                final(self)@.contains(p) <==> p == (key@, value@) || (p.0 != key@ && old(
                    self,
                )@.contains(p)),
    {
        proof {
            use_type_invariant(&*self);
        }
        let ghost before = self@;
        let mut fresh: Vec<Link> = Vec::new();
        let mut placed = false;
        let mut replaced = false;
        let mut i: usize = 0;
        let ghost mut out: Seq<LinkView> = Seq::empty();
        proof {
            assert(link_views(fresh@) == out);
        }
        while i < self.entries.len()
            invariant
                i <= self.entries.len(),
                before == self@,
                before == link_views(self.entries@),
                before.len() == self.entries.len(),
                ascending(before),
                out == link_views(fresh@),
                ascending(out),
                forall|p: LinkView| #[trigger]
                    out.contains(p) <==> (placed && p == (key@, value@)) || (p.0 != key@
                        && before.take(i as int).contains(p)),
                replaced <==> exists|j: int| 0 <= j < i && (#[trigger] before[j]).0 == key@,
                placed ==> exists|j: int|
                    0 <= j < i && ((#[trigger] before[j]).0 == key@ || key_before(
                        key@,
                        before[j].0,
                    )),
                !placed ==> forall|j: int|
                    0 <= j < i ==> key_before((#[trigger] before[j]).0, key@),
                replaced ==> placed,
            decreases self.entries.len() - i,
        {
            let entry_key = self.entries[i].key.as_str();
            let ghost p0 = before[i as int];
            proof {
                assert(p0 == (self.entries@[i as int].key@, self.entries@[i as int].value@));
                lemma_take_contains(before, i as int);
            }
            let is_key = text::same_text(entry_key, key);
            if is_key {
                replaced = true;
            }
            if !placed {
                let key_first = bytes::before(key.as_bytes(), entry_key.as_bytes());
                if is_key || key_first {
                    let ghost o = out;
                    fresh.push(Link { key: key.to_owned(), value: value.to_owned() });
                    placed = true;
                    proof {
                        out = o.push((key@, value@));
                        assert(link_views(fresh@) =~= out);
                        assert forall|a: int, b: int| 0 <= a < b < out.len() implies key_before(
                            (#[trigger] out[a]).0,
                            (#[trigger] out[b]).0,
                        ) by {
                            if b == o.len() {
                                assert(o.contains(o[a]));
                                assert(before.take(i as int).contains(o[a]));
                                let k = before.take(i as int).index_of(o[a]);
                                assert(before[k] == o[a]);
                            } else {
                                assert(o[a] == out[a] && o[b] == out[b]);
                            }
                        }
                        lemma_push_contains(o, (key@, value@));
                    }
                } else {
                    proof {
                        bytes::lemma_before_total(encode_utf8(key@), encode_utf8(p0.0));
                        if encode_utf8(key@) == encode_utf8(p0.0) {
                            digest::lemma_encode_utf8_injective(key@, p0.0);
                        }
                        assert(key_before(p0.0, key@));
                    }
                }
            }
            if !is_key {
                let ghost o = out;
                fresh.push(
                    Link {
                        key: self.entries[i].key.clone(),
                        value: self.entries[i].value.clone(),
                    },
                );
                proof {
                    out = o.push(p0);
                    assert(link_views(fresh@) =~= out);
                    assert forall|a: int, b: int| 0 <= a < b < out.len() implies key_before(
                        (#[trigger] out[a]).0,
                        (#[trigger] out[b]).0,
                    ) by {
                        if b == o.len() {
                            assert(o.contains(o[a]));
                            if o[a] == (key@, value@) && placed {
                                let w = choose|j: int|
                                    0 <= j < i + 1 && ((#[trigger] before[j]).0 == key@
                                        || key_before(key@, before[j].0));
                                if w < i {
                                    assert(key_before(before[w].0, before[i as int].0));
                                    if before[w].0 != key@ {
                                        bytes::lemma_before_transitive(
                                            encode_utf8(key@),
                                            encode_utf8(before[w].0),
                                            encode_utf8(p0.0),
                                        );
                                    }
                                }
                            } else {
                                assert(before.take(i as int).contains(o[a]));
                                let k = before.take(i as int).index_of(o[a]);
                                assert(before[k] == o[a]);
                            }
                        } else {
                            assert(o[a] == out[a] && o[b] == out[b]);
                        }
                    }
                    lemma_push_contains(o, p0);
                }
            }
            i += 1;
        }
        proof {
            assert(before.take(before.len() as int) == before);
        }
        if !placed {
            let ghost o = out;
            fresh.push(Link { key: key.to_owned(), value: value.to_owned() });
            proof {
                out = o.push((key@, value@));
                assert(link_views(fresh@) =~= out);
                assert forall|a: int, b: int| 0 <= a < b < out.len() implies key_before(
                    (#[trigger] out[a]).0,
                    (#[trigger] out[b]).0,
                ) by {
                    if b == o.len() {
                        assert(o.contains(o[a]));
                        let k = before.index_of(o[a]);
                        assert(before[k] == o[a]);
                    } else {
                        assert(o[a] == out[a] && o[b] == out[b]);
                    }
                }
                lemma_push_contains(o, (key@, value@));
            }
        }
        self.entries = fresh;
        replaced
    }

    /// Whether two sets of links are equal.
    pub fn same(&self, other: &Links) -> (r: bool)
        ensures
            r == (self@ == other@),
    {
        if self.entries.len() != other.entries.len() {
            proof {
                assert(self@.len() != other@.len());
            }
            return false;
        }
        let mut i: usize = 0;
        while i < self.entries.len()
            invariant
                i <= self.entries.len(),
                self.entries.len() == other.entries.len(),
                self@.len() == self.entries.len(),
                other@.len() == other.entries.len(),
                forall|j: int| 0 <= j < i ==> self@[j] == other@[j],
            decreases self.entries.len() - i,
        {
            let ghost l = self@[i as int];
            let ghost r = other@[i as int];
            if !text::same_text(self.entries[i].key.as_str(), other.entries[i].key.as_str())
                || !text::same_text(
                self.entries[i].value.as_str(),
                other.entries[i].value.as_str(),
            ) {
                proof {
                    assert(l != r);
                }
                return false;
            }
            proof {
                assert(l == r);
            }
            i += 1;
        }
        proof {
            assert(self@ =~= other@);
        }
        true
    }
}

/// What a row of links holds.
spec fn link_views(entries: Seq<Link>) -> Seq<LinkView> {
    entries.map_values(|l: Link| (l.key@, l.value@))
}

proof fn lemma_push_contains(links: Seq<LinkView>, p: LinkView)
    ensures
        forall|q: LinkView| #[trigger]
            links.push(p).contains(q) <==> links.contains(q) || q == p,
{
    assert forall|q: LinkView| #[trigger]
        links.push(p).contains(q) <==> links.contains(q) || q == p by {
        if links.contains(q) {
            let i = links.index_of(q);
            assert(links.push(p)[i] == q);
        }
        if q == p {
            assert(links.push(p)[links.len() as int] == q);
        }
    }
}

proof fn lemma_take_contains(links: Seq<LinkView>, i: int)
    requires
        0 <= i < links.len(),
    ensures
        forall|q: LinkView| #[trigger]
            links.take(i + 1).contains(q) <==> links.take(i).contains(q) || q == links[i],
{
    assert(links.take(i + 1) =~= links.take(i).push(links[i]));
    lemma_push_contains(links.take(i), links[i]);
}

impl Clone for Links {
    fn clone(&self) -> (r: Self)
        ensures
            r@ == self@,
    {
        proof {
            use_type_invariant(self);
        }
        let mut entries: Vec<Link> = Vec::new();
        let mut i: usize = 0;
        while i < self.entries.len()
            invariant
                i <= self.entries.len(),
                link_views(entries@) == link_views(self.entries@).take(i as int),
            decreases self.entries.len() - i,
        {
            let ghost before = entries@;
            entries.push(
                Link { key: self.entries[i].key.clone(), value: self.entries[i].value.clone() },
            );
            proof {
                let all = link_views(self.entries@);
                assert(link_views(entries@) =~= link_views(before).push(all[i as int]));
                assert(all.take(i + 1) =~= all.take(i as int).push(all[i as int]));
            }
            i += 1;
        }
        proof {
            assert(link_views(self.entries@).take(self.entries.len() as int) =~= link_views(
                self.entries@,
            ));
            assert(ascending(link_views(entries@)));
        }
        Links { entries }
    }
}

} // verus!
