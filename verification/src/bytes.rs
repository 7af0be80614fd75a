//! Bytes: length-framed encoding, comparison, and splitting.

use vstd::prelude::*;

verus! {

/// A 64-bit number as eight bytes, most significant first.
pub open spec fn be64(n: u64) -> Seq<u8> {
    seq![
        ((n >> 56) & 0xff) as u8,
        ((n >> 48) & 0xff) as u8,
        ((n >> 40) & 0xff) as u8,
        ((n >> 32) & 0xff) as u8,
        ((n >> 24) & 0xff) as u8,
        ((n >> 16) & 0xff) as u8,
        ((n >> 8) & 0xff) as u8,
        (n & 0xff) as u8,
    ]
}

/// Bytes preceded by their length.
pub open spec fn framed(bytes: Seq<u8>) -> Seq<u8> {
    be64(bytes.len() as u64) + bytes
}

/// The eight bytes determine the number.
pub proof fn lemma_be64_injective(a: u64, b: u64)
    requires
        be64(a) == be64(b),
    ensures
        a == b,
{
    let x = be64(a);
    let y = be64(b);
    assert(x[0] == y[0] && x[1] == y[1] && x[2] == y[2] && x[3] == y[3] && x[4] == y[4] && x[5]
        == y[5] && x[6] == y[6] && x[7] == y[7]);
    assert(a == b) by (bit_vector)
        requires
            ((a >> 56) & 0xff) as u8 == ((b >> 56) & 0xff) as u8,
            ((a >> 48) & 0xff) as u8 == ((b >> 48) & 0xff) as u8,
            ((a >> 40) & 0xff) as u8 == ((b >> 40) & 0xff) as u8,
            ((a >> 32) & 0xff) as u8 == ((b >> 32) & 0xff) as u8,
            ((a >> 24) & 0xff) as u8 == ((b >> 24) & 0xff) as u8,
            ((a >> 16) & 0xff) as u8 == ((b >> 16) & 0xff) as u8,
            ((a >> 8) & 0xff) as u8 == ((b >> 8) & 0xff) as u8,
            (a & 0xff) as u8 == (b & 0xff) as u8,
    ;
}

/// A frame can be read back: whatever follows, the framed bytes and the rest
/// are determined.
pub proof fn lemma_framed_injective(a: Seq<u8>, s: Seq<u8>, b: Seq<u8>, t: Seq<u8>)
    requires
        framed(a) + s == framed(b) + t,
        a.len() <= u64::MAX,
        b.len() <= u64::MAX,
    ensures
        a == b,
        s == t,
{
    let x = framed(a) + s;
    let y = framed(b) + t;
    assert(x.take(8) == be64(a.len() as u64));
    assert(y.take(8) == be64(b.len() as u64));
    lemma_be64_injective(a.len() as u64, b.len() as u64);
    assert(x.subrange(8, 8 + a.len() as int) == a);
    assert(y.subrange(8, 8 + b.len() as int) == b);
    assert(x.skip(8 + a.len() as int) == s);
    assert(y.skip(8 + b.len() as int) == t);
}

/// Joining byte strings is associative.
pub proof fn lemma_assoc(a: Seq<u8>, b: Seq<u8>, c: Seq<u8>)
    ensures
        (a + b) + c == a + (b + c),
{
    assert((a + b) + c =~= a + (b + c));
}

/// Eight parts appended one after the other, nested from the right.
pub proof fn lemma_nest8(
    d: Seq<u8>,
    p1: Seq<u8>,
    p2: Seq<u8>,
    p3: Seq<u8>,
    p4: Seq<u8>,
    p5: Seq<u8>,
    p6: Seq<u8>,
    p7: Seq<u8>,
    p8: Seq<u8>,
)
    ensures
        d + p1 + p2 + p3 + p4 + p5 + p6 + p7 + p8 == d + (p1 + (p2 + (p3 + (p4 + (p5 + (p6 + (p7
            + p8))))))),
{
    let t7 = p7 + p8;
    let t6 = p6 + t7;
    let t5 = p5 + t6;
    let t4 = p4 + t5;
    let t3 = p3 + t4;
    let t2 = p2 + t3;
    lemma_assoc(d + p1 + p2 + p3 + p4 + p5 + p6, p7, p8);
    lemma_assoc(d + p1 + p2 + p3 + p4 + p5, p6, t7);
    lemma_assoc(d + p1 + p2 + p3 + p4, p5, t6);
    lemma_assoc(d + p1 + p2 + p3, p4, t5);
    lemma_assoc(d + p1 + p2, p3, t4);
    lemma_assoc(d + p1, p2, t3);
    lemma_assoc(d, p1, t2);
}

/// Nine parts appended one after the other, nested from the right.
pub proof fn lemma_nest9(
    d: Seq<u8>,
    p1: Seq<u8>,
    p2: Seq<u8>,
    p3: Seq<u8>,
    p4: Seq<u8>,
    p5: Seq<u8>,
    p6: Seq<u8>,
    p7: Seq<u8>,
    p8: Seq<u8>,
    p9: Seq<u8>,
)
    ensures
        d + p1 + p2 + p3 + p4 + p5 + p6 + p7 + p8 + p9 == d + (p1 + (p2 + (p3 + (p4 + (p5 + (p6 + (
        p7 + (p8 + p9)))))))),
{
    let t8 = p8 + p9;
    lemma_assoc(d + p1 + p2 + p3 + p4 + p5 + p6 + p7, p8, p9);
    lemma_nest8(d, p1, p2, p3, p4, p5, p6, p7, t8);
}

/// Append `more` to `out`.
pub fn push_bytes(out: &mut Vec<u8>, more: &[u8])
    ensures
        final(out)@ == old(out)@ + more@,
{
    let ghost before = out@;
    let mut i: usize = 0;
    while i < more.len()
        invariant
            i <= more.len(),
            out@ == before + more@.take(i as int),
        decreases more.len() - i,
    {
        out.push(more[i]);
        proof {
            assert(more@.take(i + 1) == more@.take(i as int).push(more@[i as int]));
            assert(out@ == before + more@.take(i + 1));
        }
        i += 1;
    }
    proof {
        assert(more@.take(more@.len() as int) == more@);
    }
}

/// Append a 64-bit number, most significant byte first.
pub fn push_be64(out: &mut Vec<u8>, n: u64)
    ensures
        final(out)@ == old(out)@ + be64(n),
{
    let ghost before = out@;
    out.push(((n >> 56) & 0xff) as u8);
    out.push(((n >> 48) & 0xff) as u8);
    out.push(((n >> 40) & 0xff) as u8);
    out.push(((n >> 32) & 0xff) as u8);
    out.push(((n >> 24) & 0xff) as u8);
    out.push(((n >> 16) & 0xff) as u8);
    out.push(((n >> 8) & 0xff) as u8);
    out.push((n & 0xff) as u8);
    proof {
        assert(out@ == before + be64(n));
    }
}

/// Append bytes preceded by their length; see [`framed`].
pub fn push_framed(out: &mut Vec<u8>, bytes: &[u8])
    ensures
        final(out)@ == old(out)@ + framed(bytes@),
{
    let ghost before = out@;
    push_be64(out, bytes.len() as u64);
    push_bytes(out, bytes);
    proof {
        assert(out@ == before + framed(bytes@));
    }
}

/// A copy of `bytes`.
pub fn copy_bytes(bytes: &[u8]) -> (r: Vec<u8>)
    ensures
        r@ == bytes@,
{
    let mut r: Vec<u8> = Vec::new();
    push_bytes(&mut r, bytes);
    proof {
        assert(r@ == bytes@);
    }
    r
}

/// Whether two byte strings are equal.
pub fn same_bytes(left: &[u8], right: &[u8]) -> (r: bool)
    ensures
        r == (left@ == right@),
{
    if left.len() != right.len() {
        return false;
    }
    let mut i: usize = 0;
    while i < left.len()
        invariant
            left.len() == right.len(),
            i <= left.len(),
            forall|j: int| 0 <= j < i ==> left@[j] == right@[j],
        decreases left.len() - i,
    {
        if left[i] != right[i] {
            return false;
        }
        i += 1;
    }
    proof {
        assert(left@ =~= right@);
    }
    true
}

/// Whether `left` stands before `right` in the lexicographic order of bytes.
pub open spec fn bytes_before(left: Seq<u8>, right: Seq<u8>) -> bool
    decreases left.len(),
{
    if right.len() == 0 {
        false
    } else if left.len() == 0 {
        true
    } else if left[0] != right[0] {
        left[0] < right[0]
    } else {
        bytes_before(left.skip(1), right.skip(1))
    }
}

/// Nothing stands before itself.
pub proof fn lemma_before_irreflexive(a: Seq<u8>)
    ensures
        !bytes_before(a, a),
    decreases a.len(),
{
    if a.len() > 0 {
        lemma_before_irreflexive(a.skip(1));
    }
}

/// The order is transitive.
pub proof fn lemma_before_transitive(a: Seq<u8>, b: Seq<u8>, c: Seq<u8>)
    requires
        bytes_before(a, b),
        bytes_before(b, c),
    ensures
        bytes_before(a, c),
    decreases a.len(),
{
    if a.len() > 0 && b.len() > 0 && c.len() > 0 && a[0] == b[0] && b[0] == c[0] {
        lemma_before_transitive(a.skip(1), b.skip(1), c.skip(1));
    }
}

/// Of two different byte strings one stands before the other.
pub proof fn lemma_before_total(a: Seq<u8>, b: Seq<u8>)
    ensures
        a == b || bytes_before(a, b) || bytes_before(b, a),
    decreases a.len(),
{
    if a.len() > 0 && b.len() > 0 && a[0] == b[0] {
        lemma_before_total(a.skip(1), b.skip(1));
        if a.skip(1) == b.skip(1) {
            assert(a == seq![a[0]] + a.skip(1));
            assert(b == seq![b[0]] + b.skip(1));
        }
    } else if a.len() == 0 && b.len() == 0 {
        assert(a == b);
    }
}

/// Test for [`bytes_before`].
pub fn before(left: &[u8], right: &[u8]) -> (r: bool)
    ensures
        r == bytes_before(left@, right@),
{
    let mut i: usize = 0;
    proof {
        assert(left@.skip(0) == left@);
        assert(right@.skip(0) == right@);
    }
    while i < left.len() && i < right.len()
        invariant
            i <= left.len(),
            i <= right.len(),
            bytes_before(left@, right@) == bytes_before(
                left@.skip(i as int),
                right@.skip(i as int),
            ),
        decreases left.len() - i,
    {
        proof {
            assert(left@.skip(i as int)[0] == left@[i as int]);
            assert(right@.skip(i as int)[0] == right@[i as int]);
            assert(left@.skip(i as int).skip(1) == left@.skip(i + 1));
            assert(right@.skip(i as int).skip(1) == right@.skip(i + 1));
        }
        if left[i] != right[i] {
            return left[i] < right[i];
        }
        i += 1;
    }
    i < right.len()
}

/// The pieces of `bytes` between occurrences of `separator`; there is always
/// one more piece than there are separators.
pub open spec fn split_on(bytes: Seq<u8>, separator: u8) -> Seq<Seq<u8>>
    decreases bytes.len(),
{
    if bytes.len() == 0 {
        seq![Seq::<u8>::empty()]
    } else {
        let before = split_on(bytes.drop_last(), separator);
        if bytes.last() == separator {
            before.push(Seq::<u8>::empty())
        } else {
            before.drop_last().push(before.last().push(bytes.last()))
        }
    }
}

/// What each byte string of a row holds.
pub open spec fn views(rows: Seq<Vec<u8>>) -> Seq<Seq<u8>> {
    rows.map_values(|row: Vec<u8>| row@)
}

/// Cut `bytes` at every `separator`; see [`split_on`].
pub fn split_bytes(bytes: &[u8], separator: u8) -> (r: Vec<Vec<u8>>)
    ensures
        views(r@) == split_on(bytes@, separator),
{
    let mut done: Vec<Vec<u8>> = Vec::new();
    let mut current: Vec<u8> = Vec::new();
    let mut i: usize = 0;
    proof {
        assert(views(done@).push(current@) == split_on(bytes@.take(0), separator));
    }
    while i < bytes.len()
        invariant
            i <= bytes.len(),
            views(done@).push(current@) == split_on(bytes@.take(i as int), separator),
        decreases bytes.len() - i,
    {
        let b = bytes[i];
        let ghost prefix = bytes@.take(i + 1);
        let ghost so_far = views(done@).push(current@);
        proof {
            assert(prefix.drop_last() == bytes@.take(i as int));
            assert(prefix.last() == b);
            assert(so_far.last() == current@);
            assert(so_far.drop_last() == views(done@));
        }
        if b == separator {
            let ghost done_before = done@;
            let ghost piece = current@;
            done.push(current);
            current = Vec::new();
            proof {
                assert(views(done@) == views(done_before).push(piece));
            }
        } else {
            current.push(b);
        }
        i += 1;
    }
    proof {
        assert(bytes@.take(bytes@.len() as int) == bytes@);
    }
    let ghost done_before = done@;
    let ghost piece = current@;
    done.push(current);
    proof {
        assert(views(done@) == views(done_before).push(piece));
    }
    done
}

/// The pieces that hold something.
pub open spec fn nonempty_pieces(pieces: Seq<Seq<u8>>) -> Seq<Seq<u8>> {
    pieces.filter(|piece: Seq<u8>| piece.len() > 0)
}

/// Cut `bytes` at every NUL and keep the pieces that hold something.
pub fn nul_fields(bytes: &[u8]) -> (r: Vec<Vec<u8>>)
    ensures
        views(r@) == nonempty_pieces(split_on(bytes@, 0)),
{
    let pieces = split_bytes(bytes, 0);
    let mut r: Vec<Vec<u8>> = Vec::new();
    let mut i: usize = 0;
    let ghost all = views(pieces@);
    proof {
        reveal(Seq::filter);
        assert(views(r@) == nonempty_pieces(all.take(0)));
    }
    while i < pieces.len()
        invariant
            i <= pieces.len(),
            all == views(pieces@),
            views(r@) == nonempty_pieces(all.take(i as int)),
        decreases pieces.len() - i,
    {
        proof {
            reveal(Seq::filter);
            assert(all.take(i + 1).drop_last() == all.take(i as int));
            assert(all.take(i + 1).last() == pieces@[i as int]@);
        }
        if pieces[i].len() > 0 {
            let copy = copy_bytes(pieces[i].as_slice());
            let ghost before = r@;
            let ghost piece = copy@;
            r.push(copy);
            proof {
                assert(views(r@) == views(before).push(piece));
            }
        }
        i += 1;
    }
    proof {
        assert(all.take(all.len() as int) == all);
    }
    r
}

} // verus!
