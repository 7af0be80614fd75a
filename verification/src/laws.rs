//! What the operations are for, stated of their arguments and results.
//!
//! Each law supposes that a call gave a result, and says what that result must
//! be in terms of the fields and bytes that went in. The few notions used for
//! this are written out here, so that a law can be read on its own.

use vstd::prelude::*;
use vstd::string::*;
use vstd::utf8::*;

use crate::git_path::GitPath;
use crate::model::{Checkpoint, Evidence};
use crate::{bytes, digest, record, text, validate};

pub mod attesting;
pub mod basics;
pub mod checkpointing;
pub mod creating;
pub mod dropping;
pub mod evidence;
pub mod exporting;
pub mod guarding;
pub mod history;
pub mod ignoring;
pub mod inputs;
pub mod integrating;
pub mod limiting;
pub mod listing;
pub mod measuring;
pub mod places;
pub mod reading;
pub mod records;
pub mod recovering;
pub mod refusing;
pub mod reserving;
pub mod running;
pub mod sealing;
pub mod signing;
pub mod stepping;
pub mod verifying;
pub mod wording;
pub mod workspaces;

verus! {

/// Whether a text is made of lowercase hexadecimal digits.
pub open spec fn is_hex(t: Seq<char>) -> bool {
    forall|i: int| 0 <= i < t.len() ==> '0' <= #[trigger] t[i] <= '9' || 'a' <= t[i] <= 'f'
}

/// Whether a text is written like a SHA-256 digest.
pub open spec fn is_digest(t: Seq<char>) -> bool {
    t.len() == 64 && is_hex(t)
}

/// Whether a text is written like a full Git object ID.
pub open spec fn is_object(t: Seq<char>) -> bool {
    (t.len() == 40 || t.len() == 64) && is_hex(t)
}

/// Whether a text is written like a capsule ID.
pub open spec fn is_id(t: Seq<char>) -> bool {
    &&& 8 <= t.len() <= 64
    &&& t[0] == 'c' && t[1] == 'a' && t[2] == 'p' && t[3] == '-'
    &&& forall|i: int|
        0 <= i < t.len() ==> 'a' <= #[trigger] t[i] <= 'z' || '0' <= t[i] <= '9' || t[i] == '-'
}

/// The characters of an optional text.
pub open spec fn opt(t: Option<String>) -> Option<Seq<char>> {
    match t {
        Some(t) => Some(t@),
        None => None,
    }
}

/// Whether a character is a control character.
pub open spec fn is_control(c: char) -> bool {
    c as u32 <= 0x1f || 0x7f <= c as u32 <= 0x9f
}

/// Whether a character is white space.
pub open spec fn is_space(c: char) -> bool {
    let n = c as u32;
    0x9 <= n <= 0xd || n == 0x20 || n == 0x85 || n == 0xa0 || n == 0x1680 || 0x2000 <= n <= 0x200a
        || n == 0x2028 || n == 0x2029 || n == 0x202f || n == 0x205f || n == 0x3000
}

/// Whether a text can be recorded: it says something, is at most so many bytes
/// long, and holds no control characters but the line breaks and tabs that
/// several lines need.
pub open spec fn is_text(t: Seq<char>, most: int, lines: bool) -> bool {
    &&& encode_utf8(t).len() <= most
    &&& exists|i: int| 0 <= i < t.len() && !is_space(#[trigger] t[i])
    &&& forall|i: int|
        0 <= i < t.len() ==> !is_control(#[trigger] t[i]) || lines && (t[i] == '\n' || t[i] == '\t')
}

/// A number as eight bytes, the most significant first.
pub open spec fn eight(n: u64) -> Seq<u8> {
    seq![
        (n / 0x100000000000000 % 256) as u8,
        (n / 0x1000000000000 % 256) as u8,
        (n / 0x10000000000 % 256) as u8,
        (n / 0x100000000 % 256) as u8,
        (n / 0x1000000 % 256) as u8,
        (n / 0x10000 % 256) as u8,
        (n / 0x100 % 256) as u8,
        (n % 256) as u8,
    ]
}

/// Bytes behind their length.
pub open spec fn behind_length(b: Seq<u8>) -> Seq<u8> {
    eight(b.len() as u64) + b
}

/// Whether one row of bytes stands before another: at the first place where
/// they differ it has the lesser byte, or it ends there.
pub open spec fn stands_before(a: Seq<u8>, b: Seq<u8>) -> bool {
    exists|n: int|
        0 <= n < b.len() && n <= a.len() && #[trigger] a.take(n) == b.take(n) && (n == a.len()
            || a[n] < b[n])
}

/// Whether two records say the same.
pub open spec fn same_evidence(a: Evidence, b: Evidence) -> bool {
    &&& a.command@ == b.command@
    &&& a.exit_code == b.exit_code
    &&& a.executed == b.executed
    &&& opt(a.output_sha256) == opt(b.output_sha256)
    &&& a.output_bytes == b.output_bytes
    &&& opt(a.summary) == opt(b.summary)
    &&& a.patch_sha256@ == b.patch_sha256@
    &&& a.recorded_at_unix == b.recorded_at_unix
}

/// Whether two rows of records say the same, one by one.
pub open spec fn same_records(a: Seq<Evidence>, b: Seq<Evidence>) -> bool {
    a.len() == b.len() && forall|i: int| 0 <= i < a.len() ==> same_evidence(#[trigger] a[i], b[i])
}

/// Whether two checkpoints are the same.
pub open spec fn same_checkpoint(a: Checkpoint, b: Checkpoint) -> bool {
    &&& a.commit@ == b.commit@
    &&& a.message@ == b.message@
    &&& a.author_name@ == b.author_name@
    &&& a.author_email@ == b.author_email@
    &&& a.created_at_unix == b.created_at_unix
}

/// Whether two rows of checkpoints are the same, one by one.
pub open spec fn same_checkpoints(a: Seq<Checkpoint>, b: Seq<Checkpoint>) -> bool {
    a.len() == b.len() && forall|i: int| 0 <= i < a.len() ==> same_checkpoint(#[trigger] a[i], b[i])
}

/// Whether two paths are written the same.
pub open spec fn same_path(a: GitPath, b: GitPath) -> bool {
    match (a, b) {
        (GitPath::Utf8(x), GitPath::Utf8(y)) => x@ == y@,
        (
            GitPath::UnixBytes { unix_bytes_hex: x },
            GitPath::UnixBytes { unix_bytes_hex: y },
        ) => x@ == y@,
        _ => false,
    }
}

/// Whether two rows of paths are written the same, one by one.
pub open spec fn same_paths(a: Seq<GitPath>, b: Seq<GitPath>) -> bool {
    a.len() == b.len() && forall|i: int| 0 <= i < a.len() ==> same_path(#[trigger] a[i], b[i])
}

pub(crate) proof fn lemma_views<T: View>(rows: Seq<T>)
    ensures
        record::views(rows).len() == rows.len(),
        forall|i: int| 0 <= i < rows.len() ==> #[trigger] record::views(rows)[i] == rows[i]@,
        forall|i: int| 0 <= i < rows.len() ==> record::views(rows)[i] == (#[trigger] rows[i])@,
{
}

pub(crate) proof fn lemma_same_records(a: Seq<Evidence>, b: Seq<Evidence>)
    ensures
        same_records(a, b) <==> record::views(a) == record::views(b),
{
    lemma_views(a);
    lemma_views(b);
    if record::views(a) == record::views(b) {
        assert forall|i: int| 0 <= i < a.len() implies same_evidence(#[trigger] a[i], b[i]) by {
            assert(record::views(a)[i] == record::views(b)[i]);
        }
    }
    if same_records(a, b) {
        assert forall|i: int| 0 <= i < a.len() implies record::views(a)[i] == record::views(b)[i] by {
            assert(same_evidence(a[i], b[i]));
        }
        assert(record::views(a) =~= record::views(b));
    }
}

pub(crate) proof fn lemma_same_checkpoints(a: Seq<Checkpoint>, b: Seq<Checkpoint>)
    ensures
        same_checkpoints(a, b) <==> record::views(a) == record::views(b),
{
    lemma_views(a);
    lemma_views(b);
    if record::views(a) == record::views(b) {
        assert forall|i: int| 0 <= i < a.len() implies same_checkpoint(#[trigger] a[i], b[i]) by {
            assert(record::views(a)[i] == record::views(b)[i]);
        }
    }
    if same_checkpoints(a, b) {
        assert forall|i: int| 0 <= i < a.len() implies record::views(a)[i] == record::views(b)[i] by {
            assert(same_checkpoint(a[i], b[i]));
        }
        assert(record::views(a) =~= record::views(b));
    }
}

pub(crate) proof fn lemma_same_paths(a: Seq<GitPath>, b: Seq<GitPath>)
    ensures
        same_paths(a, b) <==> record::views(a) == record::views(b),
{
    lemma_views(a);
    lemma_views(b);
    if record::views(a) == record::views(b) {
        assert forall|i: int| 0 <= i < a.len() implies same_path(#[trigger] a[i], b[i]) by {
            assert(record::views(a)[i] == record::views(b)[i]);
        }
    }
    if same_paths(a, b) {
        assert forall|i: int| 0 <= i < a.len() implies record::views(a)[i] == record::views(b)[i] by {
            assert(same_path(a[i], b[i]));
        }
        assert(record::views(a) =~= record::views(b));
    }
}

pub(crate) proof fn lemma_eight(n: u64)
    ensures
        eight(n) == bytes::be64(n),
{
    assert(((n >> 56) & 0xff) as u8 == (n / 0x100000000000000 % 256) as u8 && ((n >> 48) & 0xff) as u8
        == (n / 0x1000000000000 % 256) as u8 && ((n >> 40) & 0xff) as u8 == (n / 0x10000000000
        % 256) as u8 && ((n >> 32) & 0xff) as u8 == (n / 0x100000000 % 256) as u8 && ((n >> 24)
        & 0xff) as u8 == (n / 0x1000000 % 256) as u8 && ((n >> 16) & 0xff) as u8 == (n / 0x10000
        % 256) as u8 && ((n >> 8) & 0xff) as u8 == (n / 0x100 % 256) as u8 && (n & 0xff) as u8
        == (n % 256) as u8) by (bit_vector);
}

pub(crate) proof fn lemma_behind_length(b: Seq<u8>)
    ensures
        behind_length(b) == bytes::framed(b),
{
    lemma_eight(b.len() as u64);
}

pub(crate) proof fn lemma_stands_before(a: Seq<u8>, b: Seq<u8>)
    ensures
        stands_before(a, b) <==> bytes::bytes_before(a, b),
    decreases a.len(),
{
    if b.len() == 0 {
    } else if a.len() == 0 {
        assert(a.take(0) =~= b.take(0));
    } else if a[0] != b[0] {
        if a[0] < b[0] {
            assert(a.take(0) =~= b.take(0));
        }
        if stands_before(a, b) {
            let n = choose|n: int|
                0 <= n < b.len() && n <= a.len() && #[trigger] a.take(n) == b.take(n) && (n
                    == a.len() || a[n] < b[n]);
            if n > 0 {
                assert(a.take(n)[0] == a[0] && b.take(n)[0] == b[0]);
            }
        }
    } else {
        let c = a.skip(1);
        let d = b.skip(1);
        lemma_stands_before(c, d);
        if stands_before(c, d) {
            let n = choose|n: int|
                0 <= n < d.len() && n <= c.len() && #[trigger] c.take(n) == d.take(n) && (n
                    == c.len() || c[n] < d[n]);
            assert(a.take(n + 1) =~= seq![a[0]] + c.take(n));
            assert(b.take(n + 1) =~= seq![b[0]] + d.take(n));
        }
        if stands_before(a, b) {
            let n = choose|n: int|
                0 <= n < b.len() && n <= a.len() && #[trigger] a.take(n) == b.take(n) && (n
                    == a.len() || a[n] < b[n]);
            assert(n > 0);
            assert(c.take(n - 1) =~= a.take(n).skip(1));
            assert(d.take(n - 1) =~= b.take(n).skip(1));
        }
    }
}

pub(crate) proof fn lemma_text(t: Seq<char>, most: nat, label: Seq<char>, lines: bool)
    ensures
        is_text(t, most as int, lines) <==> validate::bounded_text_check(t, most, label, lines)
            is Ok,
{
    if validate::bounded_text_check(t, most, label, lines) is Ok {
        let i = choose|i: int| 0 <= i < t.len() && !text::is_whitespace(#[trigger] t[i]);
        assert(!is_space(t[i]));
        assert forall|i: int| 0 <= i < t.len() implies !is_control(#[trigger] t[i]) || lines && (
        t[i] == '\n' || t[i] == '\t') by {
            assert(text::is_control(t[i]) ==> lines && (t[i] == '\n' || t[i] == '\t'));
        }
    }
    if is_text(t, most as int, lines) {
        let i = choose|i: int| 0 <= i < t.len() && !is_space(#[trigger] t[i]);
        assert(!text::is_whitespace(t[i]));
        assert(!text::is_blank(t));
        if t.contains('\0') {
            let j = t.index_of('\0');
            assert(t[j] == '\0');
            assert(is_control(t[j]));
        }
        if validate::has_forbidden_control(t, lines) {
            let j = choose|j: int|
                0 <= j < t.len() && text::is_control(#[trigger] t[j]) && !(lines && (t[j] == '\n'
                    || t[j] == '\t'));
            assert(is_control(t[j]));
        }
    }
}

/// What is written like a digest here is what is checked as one, and so for
/// object IDs and capsule IDs.
pub(crate) proof fn lemma_shapes(t: Seq<char>)
    ensures
        is_digest(t) == validate::is_sha256(t),
        is_object(t) == validate::is_object_id(t),
        is_id(t) == validate::is_capsule_id(t),
{
    assert(is_hex(t) == digest::all_lower_hex(t)) by {
        if is_hex(t) {
            assert forall|i: int| 0 <= i < t.len() implies digest::is_lower_hex(
                #[trigger] t[i],
            ) by {}
        }
        if digest::all_lower_hex(t) {
            assert forall|i: int| 0 <= i < t.len() implies '0' <= #[trigger] t[i] <= '9' || 'a'
                <= t[i] <= 'f' by {
                assert(digest::is_lower_hex(t[i]));
            }
        }
    }
    reveal_strlit("cap-");
    if 8 <= t.len() <= 64 {
        assert(text::has_prefix(t, "cap-"@) == (t[0] == 'c' && t[1] == 'a' && t[2] == 'p'
            && t[3] == '-')) by {
            if t[0] == 'c' && t[1] == 'a' && t[2] == 'p' && t[3] == '-' {
                assert(t.take(4) =~= "cap-"@);
            }
            if t.take(4) == "cap-"@ {
                assert(t.take(4)[0] == 'c' && t.take(4)[1] == 'a' && t.take(4)[2] == 'p' && t.take(
                    4,
                )[3] == '-');
            }
        }
        if validate::all_id_chars(t) {
            assert forall|i: int| 0 <= i < t.len() implies 'a' <= #[trigger] t[i] <= 'z' || '0'
                <= t[i] <= '9' || t[i] == '-' by {
                assert(validate::is_id_char(t[i]));
            }
        }
        if is_id(t) {
            assert forall|i: int| 0 <= i < t.len() implies validate::is_id_char(
                #[trigger] t[i],
            ) by {}
        }
    }
}

} // verus!
