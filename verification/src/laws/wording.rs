//! How numbers and errors are put into words.

use vstd::prelude::*;
use vstd::string::*;

use crate::error::Error;
use crate::laws::places;
use crate::paths::NativePath;
use crate::{digest, error, paths, text};

verus! {

/// A number in decimal, without leading zeros.
pub open spec fn digits(n: int) -> Seq<char>
    decreases n,
{
    if n < 10 {
        seq![('0' as u32 + n) as char]
    } else {
        digits(n / 10).push(('0' as u32 + n % 10) as char)
    }
}

pub(crate) proof fn lemma_digits(n: nat)
    ensures
        digits(n as int) == text::decimal(n),
    decreases n,
{
    if n >= 10 {
        lemma_digits(n / 10);
    }
}

/// What a row of digits stands for.
pub open spec fn value(t: Seq<char>) -> int
    decreases t.len(),
{
    if t.len() == 0 {
        0
    } else {
        10 * value(t.drop_last()) + (t.last() as u32 - '0' as u32)
    }
}

pub(crate) proof fn lemma_value(t: Seq<char>)
    requires
        forall|i: int| 0 <= i < t.len() ==> '0' <= #[trigger] t[i] <= '9',
    ensures
        value(t) == text::digits_value(t),
    decreases t.len(),
{
    if t.len() > 0 {
        let front = t.drop_last();
        assert forall|i: int| 0 <= i < front.len() implies '0' <= #[trigger] front[i] <= '9' by {
            assert(front[i] == t[i]);
        }
        lemma_value(front);
        assert('0' <= t[t.len() - 1] <= '9');
    }
}

proof fn lemma_digits_have_a_value(n: int)
    requires
        0 <= n,
    ensures
        value(digits(n)) == n,
        digits(n).len() > 0,
        forall|i: int| 0 <= i < digits(n).len() ==> '0' <= #[trigger] digits(n)[i] <= '9',
        digits(n).len() > 1 ==> digits(n)[0] != '0',
    decreases n,
{
    reveal_with_fuel(value, 2);
    if n >= 10 {
        lemma_digits_have_a_value(n / 10);
        let front = digits(n / 10);
        assert(digits(n).drop_last() =~= front);
        assert(digits(n)[0] == front[0]);
        if front.len() == 1 {
            assert(n / 10 < 10) by {
                if n / 10 >= 10 {
                    lemma_digits_have_a_value(n / 10 / 10);
                }
            }
        }
    } else {
        assert(digits(n).drop_last() =~= Seq::<char>::empty());
    }
}

/// A number is written in digits that stand for it, without leading zeros, and
/// reading them back gives the number. Nothing else is read as a number but
/// digits that fit, with an optional plus sign.
pub proof fn law_numbers_are_read_as_written(
    n: u64,
    written: String,
    t: &str,
    r: Option<u64>,
    i: i32,
    signed: String,
)
    requires
        call_ensures(text::decimal_text, (n,), written),
        call_ensures(text::parse_u64, (t,), r),
        call_ensures(text::signed_decimal_text, (i,), signed),
    ensures
        value(written@) == n,
        written@.len() > 0,
        forall|k: int| 0 <= k < written@.len() ==> '0' <= #[trigger] written@[k] <= '9',
        written@.len() > 1 ==> written@[0] != '0',
        t@ == written@ ==> r == Some(n),
        r matches Some(found) ==> {
            let body = if t@[0] == '+' {
                t@.skip(1)
            } else {
                t@
            };
            &&& body.len() > 0
            &&& forall|k: int| 0 <= k < body.len() ==> '0' <= #[trigger] body[k] <= '9'
            &&& value(body) == found
        },
        signed@ == (if i < 0 {
            seq!['-'] + digits(-(i as int))
        } else {
            digits(i as int)
        }),
{
    lemma_digits(n as nat);
    lemma_digits_have_a_value(n as int);
    lemma_value(written@);
    assert('0' <= written@[0] <= '9');
    if i < 0 {
        lemma_digits((-(i as int)) as nat);
    } else {
        lemma_digits(i as nat);
    }
    if r is Some {
        let body = text::unsigned_digits(t@);
        lemma_value(body);
    }
}

/// Every error has the message of its variant, over what it carries.
pub proof fn law_errors_say_what_they_carry(e: Error, r: String)
    requires
        call_ensures(Error::message, (&e,), r),
    ensures
        e matches Error::NotRepository(p) ==> r@ == "not a Git repository: "@
            + digest::lossy_text_of(p.bytes@),
        e matches Error::NotFound(t) ==> r@ == "capsule not found: "@ + t@,
        e matches Error::InvalidId(t) ==> r@ == "invalid capsule id: "@ + t@,
        e matches Error::InvalidInput(t) ==> r@ == "invalid input: "@ + t@,
        e is IdempotencyConflict ==> r@
            == "idempotency key is already bound to a different creation request"@,
        e is IdempotencyNotFound ==> r@ == "idempotency reservation not found"@,
        e matches Error::InvalidState { id, state, expected } ==> r@ == "capsule "@ + id@ + " is "@
            + state@ + "; expected "@ + expected@,
        e matches Error::UnsafeState(t) ==> r@ == "unsafe state path: "@ + t@,
        e matches Error::ForeignWorktree(p) ==> r@
            == "refusing to remove a foreign or replaced worktree: "@ + digest::lossy_text_of(
            p.bytes@,
        ),
        e matches Error::UnsealedChanges(t) ==> r@
            == "capsule has unsealed changes; close it first or pass --force: "@ + t@,
        e matches Error::ResultDrift(t) ==> r@
            == "closed capsule has drifted since its result was sealed: "@ + t@,
        e matches Error::DirtyIntegrationTarget(p) ==> r@ == "integration target is not clean: "@
            + digest::lossy_text_of(p.bytes@),
        e matches Error::Git { command, status, stderr } ==> r@ == "Git command failed ("@
            + command@ + ", exit "@ + (if status < 0 {
            seq!['-'] + digits(-(status as int))
        } else {
            digits(status as int)
        }) + "): "@ + stderr@,
        e matches Error::GitOutputTooLarge { command, cap } ==> r@ == "Git output exceeded the "@
            + digits(cap as int) + "-byte bound for: "@ + command@,
        e matches Error::NonUtf8Path(p) ==> r@ == "unsupported non-UTF-8 path: "@
            + digest::quoted_text_of(digest::lossy_text_of(p.bytes@)),
        e matches Error::SchemaVersion { found, supported } ==> r@ == "state schema version "@
            + digits(found as int) + " is incompatible with supported version "@ + digits(
            supported as int,
        ),
        e matches Error::ArtifactNotFound(t) ==> r@ == "artifact not found: "@ + t@,
        e matches Error::PolicyViolation(t) ==> r@ == "policy violation: "@ + t@,
        e matches Error::Verification(t) ==> r@ == "bundle verification failed: "@ + t@,
        e matches Error::Io { path, detail, .. } ==> r@ == "I/O error at "@
            + digest::lossy_text_of(path.bytes@) + ": "@ + detail@,
        e matches Error::Json { path, detail } ==> r@ == "invalid JSON at "@
            + digest::lossy_text_of(path.bytes@) + ": "@ + detail@,
        e is CaptureWorker ==> r@ == "internal worker failed while capturing Git output"@,
{
    if let Error::Git { status, .. } = e {
        if status < 0 {
            lemma_digits((-(status as int)) as nat);
        } else {
            lemma_digits(status as nat);
        }
    }
    if let Error::GitOutputTooLarge { cap, .. } = e {
        lemma_digits(cap as nat);
    }
    if let Error::SchemaVersion { found, supported } = e {
        lemma_digits(found as nat);
        lemma_digits(supported as nat);
    }
}

/// Every error has the stable class that machines read, and only those classes
/// occur.
pub proof fn law_errors_have_stable_classes(e: Error, r: &'static str)
    requires
        call_ensures(Error::kind, (&e,), r),
    ensures
        e is NotRepository ==> r@ == "not_repository"@,
        e is NotFound ==> r@ == "not_found"@,
        e is InvalidId || e is InvalidInput ==> r@ == "invalid_input"@,
        e is IdempotencyConflict ==> r@ == "idempotency_conflict"@,
        e is IdempotencyNotFound ==> r@ == "idempotency_not_found"@,
        e is InvalidState ==> r@ == "invalid_state"@,
        e is PolicyViolation ==> r@ == "policy"@,
        e is ArtifactNotFound ==> r@ == "artifact_not_found"@,
        e is Verification ==> r@ == "verification"@,
        e is UnsafeState || e is ForeignWorktree ==> r@ == "safety"@,
        e is UnsealedChanges || e is ResultDrift ==> r@ == "unsealed_result"@,
        e is DirtyIntegrationTarget ==> r@ == "dirty_target"@,
        e is Git || e is GitOutputTooLarge ==> r@ == "git"@,
        e is NonUtf8Path ==> r@ == "unsupported_path"@,
        e is SchemaVersion ==> r@ == "schema_version"@,
        e is Io || e is Json || e is CaptureWorker ==> r@ == "internal"@,
{
}

} // verus!
