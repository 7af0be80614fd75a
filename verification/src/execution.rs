//! What is recorded of a verification command that was run.
//!
//! This is what separates executed evidence from a claim: an [`Execution`] is
//! only ever made from a finished process's own status and output.

use vstd::prelude::*;
use vstd::string::*;
use vstd::utf8::*;

use crate::error::{Error, ErrorView};
use crate::{bytes, digest, text, validate};

verus! {

/// Largest combined standard output and error in bytes.
///
/// More is refused rather than truncated: a digest over truncated output would
/// not describe the run.
pub const OUTPUT_CAP: u64 = 8388608;

/// How much trailing output a default summary is taken from, in bytes.
pub const TAIL_BYTES: usize = 4096;

/// First gap between exit checks for a timed command, in milliseconds.
pub const INITIAL_POLL_MILLIS: u64 = 1;

/// Longest gap between exit checks, in milliseconds.
pub const MAX_POLL_MILLIS: u64 = 50;

/// What was observed when a command was run.
#[derive(Debug, PartialEq, Eq)]
pub struct Execution {
    exit_code: i32,
    output_sha256: String,
    output_bytes: u64,
    tail: String,
}

/// What an [`Execution`] holds.
pub struct ExecutionView {
    pub exit_code: i32,
    pub output_sha256: Seq<char>,
    pub output_bytes: u64,
    pub tail: Seq<char>,
}

impl View for Execution {
    type V = ExecutionView;

    closed spec fn view(&self) -> ExecutionView {
        ExecutionView {
            exit_code: self.exit_code,
            output_sha256: self.output_sha256@,
            output_bytes: self.output_bytes,
            tail: self.tail@,
        }
    }
}

/// The bytes that the output digest covers: both streams, each preceded by its
/// length.
pub open spec fn output_preimage(out: Seq<u8>, err: Seq<u8>) -> Seq<u8> {
    encode_utf8("change-capsule evidence output v1\0"@) + (bytes::framed(out) + bytes::framed(err))
}

/// Runs with different output hash different bytes: neither stream can absorb
/// a part of the other.
pub proof fn law_output_streams_are_kept_apart(
    out1: Seq<u8>,
    err1: Seq<u8>,
    out2: Seq<u8>,
    err2: Seq<u8>,
)
    requires
        out1.len() <= u64::MAX,
        err1.len() <= u64::MAX,
        out2.len() <= u64::MAX,
        err2.len() <= u64::MAX,
        output_preimage(out1, err1) == output_preimage(out2, err2),
    ensures
        out1 == out2,
        err1 == err2,
{
    let domain = encode_utf8("change-capsule evidence output v1\0"@);
    let a = bytes::framed(out1) + bytes::framed(err1);
    let b = bytes::framed(out2) + bytes::framed(err2);
    assert((domain + a).skip(domain.len() as int) =~= a);
    assert((domain + b).skip(domain.len() as int) =~= b);
    bytes::lemma_framed_injective(out1, bytes::framed(err1), out2, bytes::framed(err2));
    let none = Seq::<u8>::empty();
    assert(bytes::framed(err1) + none =~= bytes::framed(err1));
    assert(bytes::framed(err2) + none =~= bytes::framed(err2));
    bytes::lemma_framed_injective(err1, none, err2, none);
}

/// The exit code of a finished process: its status, or 128 plus the signal
/// that ended it, or -1 where neither is known.
pub open spec fn exit_code_of(code: Option<i32>, signal: Option<i32>) -> int {
    match code {
        Some(c) => c as int,
        None => match signal {
            Some(s) => 128 + s,
            None => -1,
        },
    }
}

/// The exit code of a finished process; see [`exit_code_of`].
pub fn exit_code(code: Option<i32>, signal: Option<i32>) -> (r: i32)
    requires
        signal matches Some(s) ==> s <= i32::MAX - 128,
    ensures
        r == exit_code_of(code, signal),
{
    match code {
        Some(c) => c,
        None => match signal {
            Some(s) => 128 + s,
            None => -1,
        },
    }
}

/// Whether a character may stay in a summary.
pub open spec fn is_summary_char(c: char) -> bool {
    !text::is_control(c) || c == '\n' || c == '\t'
}

/// The stream a default summary is taken from: standard error, unless it is
/// empty.
pub open spec fn summary_source(out: Seq<u8>, err: Seq<u8>) -> Seq<u8> {
    if err.len() == 0 {
        out
    } else {
        err
    }
}

/// The last bytes of a stream.
pub open spec fn last_bytes(stream: Seq<u8>) -> Seq<u8> {
    if stream.len() <= TAIL_BYTES {
        stream
    } else {
        stream.skip(stream.len() - TAIL_BYTES)
    }
}

/// The default summary of a run: the end of its output as text, without
/// control characters other than line breaks and tabs, trimmed.
pub open spec fn tail_of(out: Seq<u8>, err: Seq<u8>) -> Seq<char> {
    text::trim(
        digest::lossy_text_of(last_bytes(summary_source(out, err))).filter(
            |c: char| is_summary_char(c),
        ),
    )
}

fn without_controls(t: &str) -> (r: String)
    ensures
        r@ == t@.filter(|c: char| is_summary_char(c)),
{
    let chars = text::text_chars(t);
    let keep = Ghost(|c: char| is_summary_char(c));
    let mut r = String::new();
    let mut i: usize = 0;
    proof {
        reveal(Seq::filter);
        assert(r@ =~= t@.take(0).filter(keep@));
    }
    while i < chars.len()
        invariant
            chars@ == t@,
            i <= chars.len(),
            keep@ == (|c: char| is_summary_char(c)),
            r@ == t@.take(i as int).filter(keep@),
        decreases chars.len() - i,
    {
        let c = chars[i];
        proof {
            reveal(Seq::filter);
            assert(t@.take(i + 1).drop_last() =~= t@.take(i as int));
            assert(t@.take(i + 1).last() == c);
        }
        if !text::control(c) || c == '\n' || c == '\t' {
            r.push(c);
        }
        i += 1;
    }
    proof {
        assert(t@.take(t@.len() as int) =~= t@);
    }
    r
}

/// The default summary of a run; see [`tail_of`].
pub fn tail_text(out: &[u8], err: &[u8]) -> (r: String)
    ensures
        r@ == tail_of(out@, err@),
{
    let source = if err.len() == 0 {
        out
    } else {
        err
    };
    let start: usize = if source.len() <= TAIL_BYTES {
        0
    } else {
        source.len() - TAIL_BYTES
    };
    let tail = vstd::slice::slice_subrange(source, start, source.len());
    proof {
        assert(tail@ =~= last_bytes(summary_source(out@, err@)));
    }
    let kept = without_controls(digest::lossy_text(tail).as_str());
    text::trimmed(kept.as_str())
}

/// Refuse an empty command.
pub fn check_command(argv: &Vec<String>) -> (r: std::result::Result<(), Error>)
    ensures
        if argv@.len() == 0 {
            r matches Err(e) && e@ == ErrorView::InvalidInput(
                "a command to run must not be empty"@,
            )
        } else {
            r is Ok
        },
{
    if argv.len() == 0 {
        Err(Error::InvalidInput("a command to run must not be empty".to_owned()))
    } else {
        Ok(())
    }
}

/// What is recorded of a finished command, given its streams and status.
pub open spec fn execution_of(
    out: Seq<u8>,
    err: Seq<u8>,
    code: Option<i32>,
    signal: Option<i32>,
) -> std::result::Result<ExecutionView, ErrorView> {
    if out.len() + err.len() > OUTPUT_CAP {
        Err(
            ErrorView::InvalidInput(
                "verification command produced "@ + text::decimal((out.len() + err.len()) as nat)
                    + " bytes of output, exceeding the "@ + text::decimal(OUTPUT_CAP as nat)
                    + "-byte capture bound"@,
            ),
        )
    } else {
        Ok(
            ExecutionView {
                exit_code: exit_code_of(code, signal) as i32,
                output_sha256: digest::sha256_hex_of(output_preimage(out, err)),
                output_bytes: (out.len() + err.len()) as u64,
                tail: tail_of(out, err),
            },
        )
    }
}

impl Execution {
    #[verifier::type_invariant]
    spec fn digest_shaped(self) -> bool {
        validate::is_sha256(self.output_sha256@)
    }

    /// What is recorded of a finished command; see [`execution_of`].
    ///
    /// Each stream is captured up to one byte past the bound, so that too much
    /// output is seen rather than silently cut.
    ///
    /// The bytes and the exit status are the caller's word: this library starts
    /// no process. That evidence marked as executed stems from a run is true of
    /// a program that calls this on nothing but what it captured of a command it
    /// ran itself, as the one in `app/` does.
    pub fn observe(out: &[u8], err: &[u8], code: Option<i32>, signal: Option<i32>) -> (r:
        std::result::Result<Execution, Error>)
        requires
            out@.len() + err@.len() <= u64::MAX,
            signal matches Some(s) ==> s <= i32::MAX - 128,
        ensures
            match execution_of(out@, err@, code, signal) {
                Ok(e) => r matches Ok(found) && found@ == e,
                Err(e) => r matches Err(found) && found@ == e,
            },
    {
        let total: u64 = out.len() as u64 + err.len() as u64;
        if total > OUTPUT_CAP {
            return Err(
                Error::InvalidInput(
                    text::cat5(
                        "verification command produced ",
                        text::decimal_text(total).as_str(),
                        " bytes of output, exceeding the ",
                        text::decimal_text(OUTPUT_CAP).as_str(),
                        "-byte capture bound",
                    ),
                ),
            );
        }
        let mut covered = bytes::copy_bytes("change-capsule evidence output v1\0".as_bytes());
        bytes::push_framed(&mut covered, out);
        bytes::push_framed(&mut covered, err);
        proof {
            bytes::lemma_assoc(
                encode_utf8("change-capsule evidence output v1\0"@),
                bytes::framed(out@),
                bytes::framed(err@),
            );
            digest::lemma_hex_of_is_lower(digest::sha256_of(covered@)@);
        }
        Ok(
            Execution {
                exit_code: exit_code(code, signal),
                output_sha256: digest::sha256_hex(covered.as_slice()),
                output_bytes: total,
                tail: tail_text(out, err),
            },
        )
    }

    /// The exit code that was observed.
    pub fn exit_code(&self) -> (r: i32)
        ensures
            r == self@.exit_code,
    {
        self.exit_code
    }

    /// The digest of both captured streams.
    pub fn output_sha256(&self) -> (r: String)
        ensures
            r@ == self@.output_sha256,
            validate::is_sha256(r@),
    {
        proof {
            use_type_invariant(self);
        }
        self.output_sha256.clone()
    }

    /// The combined length of both streams in bytes.
    pub fn output_bytes(&self) -> (r: u64)
        ensures
            r == self@.output_bytes,
    {
        self.output_bytes
    }

    /// The end of the captured output, for a summary.
    pub fn tail(&self) -> (r: String)
        ensures
            r@ == self@.tail,
    {
        self.tail.clone()
    }
}

/// What to do after checking on a timed command.
#[derive(Debug, PartialEq, Eq)]
pub enum Poll {
    /// Wait this many milliseconds and check again, with the next gap given.
    Sleep {
        /// How long to wait now.
        millis: u64,
        /// How long to wait after that.
        next: u64,
    },
    /// The time is up: kill the command and report this.
    Kill(Error),
}

/// Decide on a command that is still running: kill it once its deadline has
/// passed, otherwise wait, doubling the gap up to a bound.
///
/// A deadline too far away to represent is no deadline.
pub fn poll_running(deadline_passed: bool, has_deadline: bool, limit_seconds: u64, backoff: u64) -> (r:
    Poll)
    requires
        backoff <= MAX_POLL_MILLIS,
    ensures
        if has_deadline && deadline_passed {
            r matches Poll::Kill(e) && e@ == ErrorView::InvalidInput(
                "verification command exceeded its "@ + text::decimal(limit_seconds as nat)
                    + "-second timeout and was killed; no evidence was recorded"@,
            )
        } else {
            r matches Poll::Sleep { millis, next } && millis == backoff && next == (if 2 * backoff
                <= MAX_POLL_MILLIS {
                (2 * backoff) as u64
            } else {
                MAX_POLL_MILLIS
            })
        },
{
    if has_deadline && deadline_passed {
        return Poll::Kill(
            Error::InvalidInput(
                text::cat3(
                    "verification command exceeded its ",
                    text::decimal_text(limit_seconds).as_str(),
                    "-second timeout and was killed; no evidence was recorded",
                ),
            ),
        );
    }
    let doubled: u64 = 2 * backoff;
    Poll::Sleep {
        millis: backoff,
        next: if doubled <= MAX_POLL_MILLIS {
            doubled
        } else {
            MAX_POLL_MILLIS
        },
    }
}

} // verus!
