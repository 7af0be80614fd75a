//! File-system paths as the bytes the operating system stores.
//!
//! A path is a byte string whose components are separated by `/`. Two paths
//! are the same when their components are: repeated separators, a trailing
//! separator and a `.` after the first component do not matter.

use vstd::prelude::*;
use vstd::utf8::*;

use crate::order::Ordered;
use crate::record::Record;
use crate::{bytes, digest};

verus! {

/// The byte that separates components.
pub const SEPARATOR: u8 = 47;

/// The byte `.`.
pub const DOT: u8 = 46;

/// A path, byte for byte.
#[derive(Debug, PartialEq, Eq)]
pub struct NativePath {
    /// The path's bytes.
    pub bytes: Vec<u8>,
}

impl View for NativePath {
    type V = Seq<u8>;

    open spec fn view(&self) -> Seq<u8> {
        self.bytes@
    }
}

/// Whether a path begins at the root.
pub open spec fn is_absolute(path: Seq<u8>) -> bool {
    path.len() > 0 && path[0] == SEPARATOR
}

/// Whether a piece between separators counts as a component of its own.
pub open spec fn is_proper_component(piece: Seq<u8>) -> bool {
    piece.len() > 0 && piece != seq![DOT]
}

/// The component that a path's beginning contributes: the root, or a leading
/// current directory, or nothing.
pub open spec fn leading_component(path: Seq<u8>) -> Seq<Seq<u8>> {
    if is_absolute(path) {
        seq![seq![SEPARATOR]]
    } else if bytes::split_on(path, SEPARATOR)[0] == seq![DOT] {
        seq![seq![DOT]]
    } else {
        Seq::empty()
    }
}

/// The components of a path, in order.
pub open spec fn components(path: Seq<u8>) -> Seq<Seq<u8>> {
    leading_component(path) + bytes::split_on(path, SEPARATOR).filter(
        |piece: Seq<u8>| is_proper_component(piece),
    )
}

/// Whether two paths have the same components.
pub open spec fn same(left: Seq<u8>, right: Seq<u8>) -> bool {
    components(left) == components(right)
}

/// Whether `path` is `base` or lies below it, component by component.
pub open spec fn is_within(path: Seq<u8>, base: Seq<u8>) -> bool {
    components(base).len() <= components(path).len() && components(path).take(
        components(base).len() as int,
    ) == components(base)
}

/// `base` extended by `name`: an absolute `name` replaces it, and a separator
/// is put between where one is missing.
pub open spec fn join_of(base: Seq<u8>, name: Seq<u8>) -> Seq<u8> {
    if is_absolute(name) {
        name
    } else if base.len() > 0 && base.last() != SEPARATOR {
        base.push(SEPARATOR) + name
    } else {
        base + name
    }
}

/// Whether a path stays below the directory it is relative to: it does not
/// begin at the root and never steps to a parent.
pub open spec fn is_confined(path: Seq<u8>) -> bool {
    !is_absolute(path) && !components(path).contains(seq![DOT, DOT])
}

/// The text of a path as messages show it.
pub open spec fn display_of(path: Seq<u8>) -> Seq<char> {
    digest::lossy_text_of(path)
}

impl Clone for NativePath {
    fn clone(&self) -> (r: Self)
        ensures
            r@ == self@,
    {
        NativePath { bytes: bytes::copy_bytes(self.bytes.as_slice()) }
    }
}

impl Record for NativePath {
    fn same(&self, other: &Self) -> (r: bool) {
        bytes::same_bytes(self.bytes.as_slice(), other.bytes.as_slice())
    }

    fn copy(&self) -> (r: Self) {
        self.clone()
    }
}

impl NativePath {
    /// The path that `text` spells.
    pub fn new(text: &str) -> (r: Self)
        ensures
            r@ == encode_utf8(text@),
    {
        NativePath { bytes: bytes::copy_bytes(text.as_bytes()) }
    }

    /// The path made of `bytes`.
    pub fn from_bytes(bytes: Vec<u8>) -> (r: Self)
        ensures
            r.bytes == bytes,
            r@ == bytes@,
    {
        NativePath { bytes }
    }

    /// Whether the path begins at the root.
    pub fn is_absolute(&self) -> (r: bool)
        ensures
            r == is_absolute(self@),
    {
        self.bytes.len() > 0 && self.bytes[0] == SEPARATOR
    }

    /// This path extended by `name`; see [`join_of`].
    pub fn join(&self, name: &str) -> (r: Self)
        ensures
            r@ == join_of(self@, encode_utf8(name@)),
    {
        let more = name.as_bytes();
        if more.len() > 0 && more[0] == SEPARATOR {
            return NativePath { bytes: bytes::copy_bytes(more) };
        }
        let mut out = bytes::copy_bytes(self.bytes.as_slice());
        if out.len() > 0 && out[out.len() - 1] != SEPARATOR {
            out.push(SEPARATOR);
        }
        bytes::push_bytes(&mut out, more);
        NativePath { bytes: out }
    }

    /// This path extended by another; see [`join_of`].
    pub fn join_path(&self, other: &NativePath) -> (r: Self)
        ensures
            r@ == join_of(self@, other@),
    {
        if other.is_absolute() {
            return other.clone();
        }
        let mut out = bytes::copy_bytes(self.bytes.as_slice());
        if out.len() > 0 && out[out.len() - 1] != SEPARATOR {
            out.push(SEPARATOR);
        }
        bytes::push_bytes(&mut out, other.bytes.as_slice());
        NativePath { bytes: out }
    }

    /// The components of the path, in order; see [`components`].
    pub fn components(&self) -> (r: Vec<Vec<u8>>)
        ensures
            bytes::views(r@) == components(self@),
    {
        let pieces = bytes::split_bytes(self.bytes.as_slice(), SEPARATOR);
        let ghost all = bytes::views(pieces@);
        proof {
            lemma_split_nonempty(self@, SEPARATOR);
            assert(pieces@.len() == all.len());
            assert(all[0] == pieces@[0]@);
        }
        let mut r: Vec<Vec<u8>> = Vec::new();
        let dot: [u8; 1] = [DOT];
        proof {
            assert(dot@ == seq![DOT]);
        }
        if self.is_absolute() {
            let mut root: Vec<u8> = Vec::new();
            root.push(SEPARATOR);
            proof {
                assert(root@ == seq![SEPARATOR]);
            }
            r.push(root);
        } else if bytes::same_bytes(pieces[0].as_slice(), dot.as_slice()) {
            let mut here: Vec<u8> = Vec::new();
            here.push(DOT);
            proof {
                assert(here@ == seq![DOT]);
            }
            r.push(here);
        }
        let keep = Ghost(|piece: Seq<u8>| is_proper_component(piece));
        proof {
            assert(bytes::views(r@) == leading_component(self@));
            reveal(Seq::filter);
            assert(bytes::views(r@) == leading_component(self@) + all.take(0).filter(keep@));
        }
        let mut i: usize = 0;
        while i < pieces.len()
            invariant
                i <= pieces.len(),
                all == bytes::views(pieces@),
                dot@ == seq![DOT],
                keep@ == (|piece: Seq<u8>| is_proper_component(piece)),
                bytes::views(r@) == leading_component(self@) + all.take(i as int).filter(keep@),
            decreases pieces.len() - i,
        {
            proof {
                reveal(Seq::filter);
                assert(all.take(i + 1).drop_last() == all.take(i as int));
                assert(all.take(i + 1).last() == pieces@[i as int]@);
            }
            if pieces[i].len() > 0 && !bytes::same_bytes(pieces[i].as_slice(), dot.as_slice()) {
                let copy = bytes::copy_bytes(pieces[i].as_slice());
                let ghost before = r@;
                let ghost piece = copy@;
                r.push(copy);
                proof {
                    assert(bytes::views(r@) == bytes::views(before).push(piece));
                    assert(bytes::views(r@) == leading_component(self@) + all.take(i + 1).filter(
                        keep@,
                    ));
                }
            }
            i += 1;
        }
        proof {
            assert(all.take(all.len() as int) == all);
        }
        r
    }

    /// Whether this path and `other` have the same components.
    pub fn same_path(&self, other: &NativePath) -> (r: bool)
        ensures
            r == same(self@, other@),
    {
        let left = self.components();
        let right = other.components();
        if left.len() != right.len() {
            proof {
                assert(bytes::views(left@).len() != bytes::views(right@).len());
            }
            return false;
        }
        let n: usize = left.len();
        same_rows(&left, &right, n)
    }

    /// Whether this path is `base` or lies below it.
    pub fn is_within(&self, base: &NativePath) -> (r: bool)
        ensures
            r == is_within(self@, base@),
    {
        let left = self.components();
        let right = base.components();
        proof {
            assert(bytes::views(left@).len() == left@.len());
            assert(bytes::views(right@).len() == right@.len());
        }
        if left.len() < right.len() {
            return false;
        }
        let n: usize = right.len();
        let r = same_rows(&left, &right, n);
        proof {
            assert(bytes::views(right@).take(n as int) == bytes::views(right@));
        }
        r
    }

    /// Whether the path stays below the directory it is relative to.
    pub fn is_confined(&self) -> (r: bool)
        ensures
            r == is_confined(self@),
    {
        if self.is_absolute() {
            return false;
        }
        let parts = self.components();
        let parent: [u8; 2] = [DOT, DOT];
        proof {
            assert(parent@ == seq![DOT, DOT]);
        }
        let mut i: usize = 0;
        while i < parts.len()
            invariant
                i <= parts.len(),
                parent@ == seq![DOT, DOT],
                bytes::views(parts@) == components(self@),
                forall|j: int| 0 <= j < i ==> components(self@)[j] != seq![DOT, DOT],
            decreases parts.len() - i,
        {
            proof {
                assert(components(self@)[i as int] == parts@[i as int]@);
            }
            if bytes::same_bytes(parts[i].as_slice(), parent.as_slice()) {
                return false;
            }
            i += 1;
        }
        proof {
            assert(components(self@).len() == parts@.len());
        }
        true
    }

    /// The path as messages show it.
    pub fn display(&self) -> (r: String)
        ensures
            r@ == display_of(self@),
    {
        digest::lossy_text(self.bytes.as_slice())
    }

    /// The path as text, exactly where it is valid UTF-8.
    pub fn to_text(&self) -> (r: Option<String>)
        ensures
            r is Some <==> valid_utf8(self@),
            r matches Some(t) ==> encode_utf8(t@) == self@,
    {
        digest::utf8_text(bytes::copy_bytes(self.bytes.as_slice()))
    }
}

/// Whether a byte is an ASCII letter.
pub open spec fn is_letter(b: u8) -> bool {
    65 <= b <= 90 || 97 <= b <= 122
}

/// Whether a path is a drive path in the extended-length form of Windows: the
/// prefix `\\?\`, a drive letter and a colon, and nothing or a backslash next.
pub open spec fn is_verbatim_drive(path: Seq<u8>) -> bool {
    &&& valid_utf8(path)
    &&& path.len() >= 6
    &&& path[0] == 92
    &&& path[1] == 92
    &&& path[2] == 63
    &&& path[3] == 92
    &&& is_letter(path[4])
    &&& path[5] == 58
    &&& path.len() == 6 || path[6] == 92
}

/// A canonical path in a form that other programs accept: a drive path loses
/// its extended-length prefix, and everything else, such as a share, keeps it.
pub open spec fn simplified(path: Seq<u8>) -> Seq<u8> {
    if is_verbatim_drive(path) {
        path.skip(4)
    } else {
        path
    }
}

/// The path in a form that other programs accept; see [`simplified`].
pub fn simplify(path: NativePath) -> (r: NativePath)
    ensures
        r@ == simplified(path@),
{
    let n: usize = path.bytes.len();
    if n < 6 || path.bytes[0] != 92 || path.bytes[1] != 92 || path.bytes[2] != 63 || path.bytes[3]
        != 92 || path.bytes[5] != 58 {
        return path;
    }
    let letter = path.bytes[4];
    if !((65 <= letter && letter <= 90) || (97 <= letter && letter <= 122)) {
        return path;
    }
    if n > 6 && path.bytes[6] != 92 {
        return path;
    }
    if path.to_text().is_none() {
        return path;
    }
    let rest = vstd::slice::slice_subrange(path.bytes.as_slice(), 4, n);
    proof {
        assert(rest@ =~= path@.skip(4));
    }
    NativePath { bytes: bytes::copy_bytes(rest) }
}

/// Cutting always leaves at least one piece.
pub proof fn lemma_split_nonempty(all: Seq<u8>, separator: u8)
    ensures
        bytes::split_on(all, separator).len() > 0,
    decreases all.len(),
{
    if all.len() > 0 {
        lemma_split_nonempty(all.drop_last(), separator);
    }
}

/// Whether the first `n` rows of both are equal.
fn same_rows(left: &Vec<Vec<u8>>, right: &Vec<Vec<u8>>, n: usize) -> (r: bool)
    requires
        n <= left.len(),
        n <= right.len(),
    ensures
        r == (bytes::views(left@).take(n as int) == bytes::views(right@).take(n as int)),
        n == left.len() && n == right.len() ==> r == (bytes::views(left@) == bytes::views(right@)),
{
    let ghost l = bytes::views(left@);
    let ghost r = bytes::views(right@);
    let mut i: usize = 0;
    while i < n
        invariant
            i <= n,
            n <= left.len(),
            n <= right.len(),
            l == bytes::views(left@),
            r == bytes::views(right@),
            forall|j: int| 0 <= j < i ==> l[j] == r[j],
        decreases n - i,
    {
        proof {
            assert(l[i as int] == left@[i as int]@);
            assert(r[i as int] == right@[i as int]@);
        }
        if !bytes::same_bytes(left[i].as_slice(), right[i].as_slice()) {
            proof {
                assert(l.take(n as int)[i as int] != r.take(n as int)[i as int]);
            }
            return false;
        }
        i += 1;
    }
    proof {
        assert(l.take(n as int) =~= r.take(n as int));
        if n == left.len() && n == right.len() {
            assert(l.take(n as int) == l);
            assert(r.take(n as int) == r);
        }
    }
    true
}

/// Whether one row of components stands before another: at the first position
/// where they differ the lesser component decides, and a row stands before its
/// extensions.
pub open spec fn components_before(left: Seq<Seq<u8>>, right: Seq<Seq<u8>>) -> bool
    decreases left.len(),
{
    if right.len() == 0 {
        false
    } else if left.len() == 0 {
        true
    } else if left[0] != right[0] {
        bytes::bytes_before(left[0], right[0])
    } else {
        components_before(left.skip(1), right.skip(1))
    }
}

/// No row of components stands before itself.
pub proof fn lemma_components_irreflexive(a: Seq<Seq<u8>>)
    ensures
        !components_before(a, a),
    decreases a.len(),
{
    if a.len() > 0 {
        lemma_components_irreflexive(a.skip(1));
    }
}

/// The order of rows of components is transitive.
pub proof fn lemma_components_transitive(a: Seq<Seq<u8>>, b: Seq<Seq<u8>>, c: Seq<Seq<u8>>)
    requires
        components_before(a, b),
        components_before(b, c),
    ensures
        components_before(a, c),
    decreases a.len(),
{
    if a.len() > 0 {
        if a[0] == b[0] && b[0] == c[0] {
            lemma_components_transitive(a.skip(1), b.skip(1), c.skip(1));
        } else if a[0] != b[0] && b[0] != c[0] {
            bytes::lemma_before_transitive(a[0], b[0], c[0]);
            bytes::lemma_before_irreflexive(a[0]);
        }
    }
}

/// Of two different rows of components one stands before the other.
pub proof fn lemma_components_total(a: Seq<Seq<u8>>, b: Seq<Seq<u8>>)
    ensures
        a == b || components_before(a, b) || components_before(b, a),
    decreases a.len(),
{
    if a.len() > 0 && b.len() > 0 {
        if a[0] == b[0] {
            lemma_components_total(a.skip(1), b.skip(1));
            if a.skip(1) == b.skip(1) {
                assert(a == seq![a[0]] + a.skip(1));
                assert(b == seq![b[0]] + b.skip(1));
            }
        } else {
            bytes::lemma_before_total(a[0], b[0]);
        }
    } else if a.len() == 0 && b.len() == 0 {
        assert(a == b);
    }
}

impl Ordered for NativePath {
    open spec fn precedes(self, other: Self) -> bool {
        components_before(components(self@), components(other@))
    }

    fn before(&self, other: &Self) -> (r: bool) {
        let left = self.components();
        let right = other.components();
        let ghost l = bytes::views(left@);
        let ghost r = bytes::views(right@);
        let mut i: usize = 0;
        proof {
            assert(l.skip(0) =~= l);
            assert(r.skip(0) =~= r);
            assert(l.len() == left@.len());
            assert(r.len() == right@.len());
        }
        while i < left.len() && i < right.len()
            invariant
                i <= left.len(),
                i <= right.len(),
                l == bytes::views(left@),
                r == bytes::views(right@),
                l.len() == left@.len(),
                r.len() == right@.len(),
                l == components(self@),
                r == components(other@),
                components_before(l, r) == components_before(l.skip(i as int), r.skip(i as int)),
            decreases left.len() - i,
        {
            proof {
                assert(l.skip(i as int)[0] == left@[i as int]@);
                assert(r.skip(i as int)[0] == right@[i as int]@);
                assert(l.skip(i as int).skip(1) =~= l.skip(i + 1));
                assert(r.skip(i as int).skip(1) =~= r.skip(i + 1));
            }
            if !bytes::same_bytes(left[i].as_slice(), right[i].as_slice()) {
                return bytes::before(left[i].as_slice(), right[i].as_slice());
            }
            i += 1;
        }
        i < right.len()
    }
}

} // verus!
