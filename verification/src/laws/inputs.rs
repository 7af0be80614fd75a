//! What a caller may hand in.

use vstd::prelude::*;
use vstd::string::*;
use vstd::utf8::*;

use crate::error::Error;
use crate::laws::integrating;
use crate::laws::records;
use crate::links::{LinkView, Links};
use crate::options::{
    Author, CheckpointOptions, CloseOptions, CreateOptions, EvidenceInput, IntegrateOptions,
    TimeLimit,
};
use crate::paths::NativePath;
use crate::{digest, idempotency, laws, links, options, text, validate};

verus! {

/// Whether a text may be the key of a link.
pub open spec fn is_link_key(t: Seq<char>) -> bool {
    1 <= t.len() <= 64 && forall|i: int|
        0 <= i < t.len() ==> 'a' <= #[trigger] t[i] <= 'z' || 'A' <= t[i] <= 'Z' || '0' <= t[i]
            <= '9' || t[i] == '.' || t[i] == '_' || t[i] == '-'
}

/// Whether links may be kept: at most 32, each with a usable key and a usable
/// value.
pub open spec fn are_links(row: Seq<LinkView>) -> bool {
    row.len() <= 32 && forall|i: int|
        0 <= i < row.len() ==> is_link_key((#[trigger] row[i]).0) && laws::is_text(
            row[i].1,
            4096,
            false,
        )
}

/// Whether a label may be kept.
pub open spec fn is_label(label: Option<String>) -> bool {
    label matches Some(l) ==> laws::is_text(l@, 256, false)
}

/// Whether a text may be handed to Git as a revision.
pub open spec fn is_revision(t: Seq<char>) -> bool {
    &&& t.len() > 0
    &&& encode_utf8(t).len() <= 512
    &&& t[0] != '-'
    &&& forall|i: int| 0 <= i < t.len() ==> !laws::is_control(#[trigger] t[i])
}

/// Whether a text may be an idempotency key.
pub open spec fn is_key(t: Seq<char>) -> bool {
    &&& t.len() > 0
    &&& encode_utf8(t).len() <= 256
    &&& forall|i: int|
        0 <= i < t.len() ==> !laws::is_control(#[trigger] t[i]) && !laws::is_space(t[i])
}

/// The key under which the state of a repository is grouped.
pub open spec fn project_of(common_dir: Seq<u8>) -> Seq<char> {
    digest::hex_of(digest::sha256_of(common_dir)@.take(12))
}

pub(crate) proof fn lemma_link_key(t: Seq<char>)
    ensures
        is_link_key(t) <==> validate::is_link_key(t),
{
    if is_link_key(t) {
        assert forall|i: int| 0 <= i < t.len() implies validate::is_link_key_char(
            #[trigger] t[i],
        ) by {}
    }
    if validate::is_link_key(t) {
        assert forall|i: int| 0 <= i < t.len() implies 'a' <= #[trigger] t[i] <= 'z' || 'A' <= t[i]
            <= 'Z' || '0' <= t[i] <= '9' || t[i] == '.' || t[i] == '_' || t[i] == '-' by {
            assert(validate::is_link_key_char(t[i]));
        }
    }
}

proof fn lemma_each_link(row: Seq<LinkView>)
    ensures
        validate::links_check(row) is Ok <==> forall|i: int|
            0 <= i < row.len() ==> is_link_key((#[trigger] row[i]).0) && laws::is_text(
                row[i].1,
                4096,
                false,
            ),
    decreases row.len(),
{
    if row.len() > 0 {
        let front = row.drop_last();
        lemma_each_link(front);
        lemma_link_key(row.last().0);
        laws::lemma_text(row.last().1, 4096, "link value"@, false);
        if validate::links_check(row) is Ok {
            assert forall|i: int| 0 <= i < row.len() implies is_link_key((#[trigger] row[i]).0)
                && laws::is_text(row[i].1, 4096, false) by {
                if i < front.len() {
                    assert(front[i] == row[i]);
                }
            }
        }
        if forall|i: int|
            0 <= i < row.len() ==> is_link_key((#[trigger] row[i]).0) && laws::is_text(
                row[i].1,
                4096,
                false,
            ) {
            assert forall|i: int| 0 <= i < front.len() implies is_link_key((#[trigger] front[i]).0)
                && laws::is_text(front[i].1, 4096, false) by {
                assert(front[i] == row[i]);
            }
            assert(row[row.len() - 1] == row.last());
        }
    }
}

pub(crate) proof fn lemma_request(label: Option<String>, row: Seq<LinkView>)
    ensures
        is_label(label) && are_links(row) <==> validate::create_check(text::opt_view(label), row)
            is Ok,
{
    if let Some(l) = label {
        laws::lemma_text(l@, 256, "label"@, false);
    }
    lemma_each_link(row);
}

proof fn lemma_plain_text(t: Seq<char>, most: nat)
    ensures
        laws::is_text(t, most as int, false) <==> !text::is_blank(t) && validate::byte_len(t) <= most
            && !text::has_control(t),
{
    laws::lemma_text(t, most, "label"@, false);
    if text::has_control(t) {
        let i = choose|i: int| 0 <= i < t.len() && text::is_control(#[trigger] t[i]);
        assert(laws::is_control(t[i]));
    }
    if !text::is_blank(t) && validate::byte_len(t) <= most && !text::has_control(t) {
        assert forall|i: int| 0 <= i < t.len() implies !laws::is_control(#[trigger] t[i]) by {
            assert(!text::is_control(t[i]));
        }
        let i = choose|i: int| 0 <= i < t.len() && !text::is_whitespace(#[trigger] t[i]);
        assert(!laws::is_space(t[i]));
    }
}

pub(crate) proof fn lemma_kept(label: Option<String>, row: Seq<LinkView>)
    ensures
        is_label(label) <==> idempotency::is_label(text::opt_view(label)),
        are_links(row) <==> idempotency::are_links(row),
{
    if let Some(l) = label {
        lemma_plain_text(l@, 256);
    }
    assert forall|i: int| 0 <= i < row.len() implies (is_link_key((#[trigger] row[i]).0)
        && laws::is_text(row[i].1, 4096, false)) == idempotency::is_link(row[i]) by {
        lemma_link_key(row[i].0);
        lemma_plain_text(row[i].1, 4096);
    }
    if idempotency::are_links(row) {
        assert forall|i: int| 0 <= i < row.len() implies is_link_key((#[trigger] row[i]).0)
            && laws::is_text(row[i].1, 4096, false) by {
            assert(idempotency::is_link(row[i]));
        }
    }
}

pub(crate) proof fn lemma_revision(t: Seq<char>)
    ensures
        is_revision(t) <==> validate::is_revision(t),
{
    if is_revision(t) && text::has_control(t) {
        let i = choose|i: int| 0 <= i < t.len() && text::is_control(#[trigger] t[i]);
        assert(laws::is_control(t[i]));
    }
    if validate::is_revision(t) {
        assert forall|i: int| 0 <= i < t.len() implies !laws::is_control(#[trigger] t[i]) by {
            assert(!text::is_control(t[i]));
        }
    }
}

pub(crate) proof fn lemma_key(t: Seq<char>)
    ensures
        is_key(t) <==> idempotency::key_check(t) is Ok,
{
    if is_key(t) {
        assert forall|i: int| 0 <= i < t.len() implies !(text::is_control(#[trigger] t[i])
            || text::is_whitespace(t[i])) by {
            assert(!laws::is_control(t[i]) && !laws::is_space(t[i]));
        }
    }
    if idempotency::key_check(t) is Ok {
        assert forall|i: int| 0 <= i < t.len() implies !laws::is_control(#[trigger] t[i])
            && !laws::is_space(t[i]) by {
            assert(!(text::is_control(t[i]) || text::is_whitespace(t[i])));
        }
    }
}

/// Identifiers and digests are told from other text by how they are written.
pub proof fn law_identifiers_are_told_by_how_they_are_written(
    t: &str,
    digest: bool,
    object: bool,
    project: bool,
    id: bool,
    checked: std::result::Result<(), Error>,
)
    requires
        call_ensures(validate::valid_sha256, (t,), digest),
        call_ensures(validate::valid_object_id, (t,), object),
        call_ensures(validate::valid_project_key, (t,), project),
        call_ensures(validate::valid_capsule_id, (t,), id),
        call_ensures(validate::validate_id, (t,), checked),
    ensures
        digest <==> laws::is_digest(t@),
        object <==> laws::is_object(t@),
        project <==> t@.len() == 24 && laws::is_hex(t@),
        id <==> laws::is_id(t@),
        checked is Ok <==> laws::is_id(t@),
        checked matches Err(e) ==> (e matches Error::InvalidId(found) && found@ == t@),
{
    laws::lemma_shapes(t@);
    if laws::is_hex(t@) {
        assert forall|i: int| 0 <= i < t@.len() implies digest::is_lower_hex(#[trigger] t@[i]) by {}
    }
    if digest::all_lower_hex(t@) {
        assert forall|i: int| 0 <= i < t@.len() implies '0' <= #[trigger] t@[i] <= '9' || 'a'
            <= t@[i] <= 'f' by {
            assert(digest::is_lower_hex(t@[i]));
        }
    }
}

/// Text is accepted exactly where it says something, is within its bound, and
/// holds no character that does not belong in it. Messages may have several
/// lines and 16 KiB.
pub proof fn law_text_is_bounded_and_printable(
    t: &str,
    most: usize,
    label: &str,
    lines: bool,
    r: std::result::Result<(), Error>,
    message: std::result::Result<(), Error>,
    author: Author,
    identity: std::result::Result<(), Error>,
)
    requires
        call_ensures(validate::validate_bounded_text, (t, most, label, lines), r),
        call_ensures(validate::validate_message, (t, label), message),
        call_ensures(Author::validate, (&author,), identity),
    ensures
        r is Ok <==> laws::is_text(t@, most as int, lines),
        message is Ok <==> laws::is_text(t@, 16384, true),
        identity is Ok <==> integrating::is_author(author),
{
    laws::lemma_text(t@, most as nat, label@, lines);
    laws::lemma_text(t@, 16384, label@, true);
    integrating::lemma_author(author);
}

/// A creation request is accepted exactly where its label and its links may be
/// kept.
pub proof fn law_requests_are_bounded(
    options: CreateOptions,
    r: std::result::Result<(), Error>,
    row: Links,
    checked: std::result::Result<(), Error>,
)
    requires
        call_ensures(CreateOptions::validate, (&options,), r),
        call_ensures(validate::validate_label_and_links, (&options.label, &row), checked),
    ensures
        r is Ok <==> is_label(options.label) && are_links(options.links@),
        checked is Ok <==> is_label(options.label) && are_links(row@),
{
    lemma_request(options.label, options.links@);
    lemma_request(options.label, row@);
}

/// A revision is handed to Git only where it cannot be taken for an option, and
/// a reference only where it is printable.
pub proof fn law_revisions_are_no_options(t: &str, revision: bool, reference: bool)
    requires
        call_ensures(validate::valid_revision, (t,), revision),
        call_ensures(validate::valid_head_ref, (t,), reference),
    ensures
        revision <==> is_revision(t@),
        reference <==> records::is_reference(t@),
{
    lemma_revision(t@);
    records::lemma_reference(t@);
}

/// The state of a repository is grouped under the first twelve bytes of the
/// digest of its common directory.
pub proof fn law_projects_are_grouped_by_their_common_directory(
    dir: NativePath,
    r: std::result::Result<String, Error>,
)
    requires
        call_ensures(validate::project_key, (&dir,), r),
    ensures
        r is Ok <==> valid_utf8(dir.bytes@),
        r matches Ok(key) ==> key@ == project_of(dir.bytes@),
        r matches Err(e) ==> (e matches Error::NonUtf8Path(p) && p.bytes@ == dir.bytes@),
{
}

/// A link argument is cut at its first `=`: what is before it is the key, and
/// everything behind it is the value.
pub proof fn law_link_arguments_are_cut_at_their_first_sign(
    t: &str,
    r: std::result::Result<(String, String), String>,
)
    requires
        call_ensures(validate::parse_link, (t,), r),
    ensures
        r is Ok <==> t@.contains('='),
        r matches Ok(pair) ==> !pair.0@.contains('=') && t@ == pair.0@ + seq!['='] + pair.1@,
{
    if t@.contains('=') {
        t@.index_of_first_ensures('=');
        let i = t@.index_of_first('=')->0;
        assert(t@ =~= t@.take(i) + seq!['='] + t@.skip(i + 1));
        if t@.take(i).contains('=') {
            let j = t@.take(i).index_of('=');
            assert(t@.take(i)[j] == '=');
            assert(t@[j] == '=');
        }
    }
}

proof fn lemma_distinct(pairs: Seq<LinkView>)
    ensures
        options::first_duplicate(pairs) is None <==> forall|i: int, j: int|
            0 <= i < j < pairs.len() ==> (#[trigger] pairs[i]).0 != (#[trigger] pairs[j]).0,
    decreases pairs.len(),
{
    if pairs.len() > 0 {
        let front = pairs.drop_last();
        lemma_distinct(front);
        if options::first_duplicate(pairs) is None {
            assert forall|i: int, j: int| 0 <= i < j < pairs.len() implies (#[trigger] pairs[i]).0
                != (#[trigger] pairs[j]).0 by {
                if j < front.len() {
                    assert(front[i] == pairs[i] && front[j] == pairs[j]);
                } else {
                    assert(pairs[j] == pairs.last());
                }
            }
        }
        if forall|i: int, j: int|
            0 <= i < j < pairs.len() ==> (#[trigger] pairs[i]).0 != (#[trigger] pairs[j]).0 {
            assert forall|i: int, j: int| 0 <= i < j < front.len() implies (#[trigger] front[i]).0
                != (#[trigger] front[j]).0 by {
                assert(front[i] == pairs[i] && front[j] == pairs[j]);
            }
            assert forall|i: int| 0 <= i < pairs.len() - 1 implies (#[trigger] pairs[i]).0
                != pairs.last().0 by {
                assert(pairs[pairs.len() - 1] == pairs.last());
            }
        }
    }
}

/// Whether a link is one of those given.
pub open spec fn is_given(link: LinkView, pairs: Seq<(String, String)>) -> bool {
    exists|i: int|
        0 <= i < pairs.len() && link.0 == (#[trigger] pairs[i]).0@ && link.1 == pairs[i].1@
}

/// Link arguments are kept exactly where no key is given twice: all of them, in
/// the order of their keys, and nothing else.
pub proof fn law_no_link_overwrites_another(
    pairs: Vec<(String, String)>,
    r: std::result::Result<Links, Error>,
)
    requires
        call_ensures(options::collect_links, (&pairs,), r),
    ensures
        r is Ok <==> forall|i: int, j: int|
            0 <= i < j < pairs@.len() ==> (#[trigger] pairs@[i]).0@ != (#[trigger] pairs@[j]).0@,
        r matches Ok(found) ==> {
            &&& forall|i: int|
                0 <= i < pairs@.len() ==> found@.contains(
                    ((#[trigger] pairs@[i]).0@, pairs@[i].1@),
                )
            &&& forall|k: int| 0 <= k < found@.len() ==> is_given(#[trigger] found@[k], pairs@)
            &&& forall|i: int, j: int|
                0 <= i < j < found@.len() ==> laws::stands_before(
                    encode_utf8((#[trigger] found@[i]).0),
                    encode_utf8((#[trigger] found@[j]).0),
                )
        },
{
    let all = options::pair_views(pairs@);
    assert(all.len() == pairs@.len());
    lemma_distinct(all);
    assert forall|i: int| 0 <= i < pairs@.len() implies all[i] == (
        (#[trigger] pairs@[i]).0@,
        pairs@[i].1@,
    ) by {}
    if options::first_duplicate(all) is None {
        assert forall|i: int, j: int| 0 <= i < j < pairs@.len() implies (#[trigger] pairs@[i]).0@
            != (#[trigger] pairs@[j]).0@ by {
            assert(all[i].0 != all[j].0);
        }
    }
    if forall|i: int, j: int|
        0 <= i < j < pairs@.len() ==> (#[trigger] pairs@[i]).0@ != (#[trigger] pairs@[j]).0@ {
        assert forall|i: int, j: int| 0 <= i < j < all.len() implies (#[trigger] all[i]).0 != (
        #[trigger] all[j]).0 by {
            assert(pairs@[i].0@ != pairs@[j].0@);
        }
    }
    if let Ok(found) = r {
        assert forall|i: int| 0 <= i < pairs@.len() implies found@.contains(
            ((#[trigger] pairs@[i]).0@, pairs@[i].1@),
        ) by {
            assert(all.contains(all[i]));
        }
        assert forall|k: int| 0 <= k < found@.len() implies is_given(
            #[trigger] found@[k],
            pairs@,
        ) by {
            assert(found@.contains(found@[k]));
            assert(all.contains(found@[k]));
            let i = all.index_of(found@[k]);
            assert(all[i] == (pairs@[i].0@, pairs@[i].1@));
        }
        assert forall|i: int, j: int| 0 <= i < j < found@.len() implies laws::stands_before(
            encode_utf8((#[trigger] found@[i]).0),
            encode_utf8((#[trigger] found@[j]).0),
        ) by {
            laws::lemma_stands_before(encode_utf8(found@[i].0), encode_utf8(found@[j].0));
            assert(links::key_before(found@[i].0, found@[j].0));
        }
    }
}

/// A key finds the value it is linked to, and only where it is linked.
pub proof fn law_linked_values_are_found_by_their_key(row: Links, key: &str, r: Option<&str>)
    requires
        call_ensures(Links::get, (&row, key), r),
    ensures
        r is Some <==> exists|i: int| 0 <= i < row@.len() && (#[trigger] row@[i]).0 == key@,
        r matches Some(v) ==> exists|i: int|
            0 <= i < row@.len() && #[trigger] row@[i] == (key@, v@),
{
    if let Some(v) = r {
        let i = row@.index_of((key@, v@));
        assert(row@[i] == (key@, v@));
    }
}

/// Options start from nothing but what they must have, and each choice changes
/// one thing.
pub proof fn law_options_hold_what_was_chosen(
    repository: NativePath,
    base: &str,
    label: &str,
    row: Links,
    first: CreateOptions,
    based: CreateOptions,
    labelled: CreateOptions,
    linked: CreateOptions,
    author: Author,
    message: &str,
    checkpoint: CheckpointOptions,
    integrate: IntegrateOptions,
    worded: IntegrateOptions,
)
    requires
        call_ensures(CreateOptions::new, (repository,), first),
        call_ensures(CreateOptions::with_base, (first, base), based),
        call_ensures(CreateOptions::with_label, (based, label), labelled),
        call_ensures(CreateOptions::with_links, (labelled, row), linked),
        call_ensures(CheckpointOptions::new, (message, author), checkpoint),
        call_ensures(IntegrateOptions::new, (repository, author), integrate),
        call_ensures(IntegrateOptions::with_message, (integrate, message), worded),
    ensures
        first.repository == repository && first.base@ == "HEAD"@ && first.label is None
            && first.links@.len() == 0,
        linked.repository == repository && linked.base@ == base@ && laws::opt(linked.label) == Some(
            label@,
        ) && linked.links == row,
        checkpoint.message@ == message@ && checkpoint.author == author,
        integrate.target == repository && integrate.message is None && integrate.author == author,
        worded.target == repository && laws::opt(worded.message) == Some(message@) && worded.author
            == author,
{
}

/// What is recorded is chosen one thing at a time: a run starts without a
/// summary or a limit, a claim without a summary, and only a run takes a limit.
pub proof fn law_evidence_is_chosen_one_thing_at_a_time(
    argv: Vec<String>,
    command: &str,
    exit_code: i32,
    summary: &str,
    limit: TimeLimit,
    run: EvidenceInput,
    claim: EvidenceInput,
    summed_run: EvidenceInput,
    summed_claim: EvidenceInput,
    limited_run: EvidenceInput,
    limited_claim: EvidenceInput,
)
    requires
        call_ensures(EvidenceInput::run, (argv,), run),
        call_ensures(EvidenceInput::claim, (command, exit_code), claim),
        call_ensures(EvidenceInput::with_summary, (run, summary), summed_run),
        call_ensures(EvidenceInput::with_summary, (claim, summary), summed_claim),
        call_ensures(EvidenceInput::with_timeout, (summed_run, limit), limited_run),
        call_ensures(EvidenceInput::with_timeout, (summed_claim, limit), limited_claim),
    ensures
        run matches EvidenceInput::Run { argv: a, summary: s, timeout: t } && a == argv && s is None
            && t is None,
        claim matches EvidenceInput::Claim { command: c, exit_code: e, summary: s } && c@
            == command@ && e == exit_code && s is None,
        limited_run matches EvidenceInput::Run { argv: a, summary: s, timeout: t } && a == argv
            && laws::opt(s) == Some(summary@) && t == Some(limit),
        limited_claim matches EvidenceInput::Claim { command: c, exit_code: e, summary: s } && c@
            == command@ && e == exit_code && laws::opt(s) == Some(summary@),
{
}

/// The three requirements of a close are independent of each other.
pub proof fn law_requirements_are_independent(
    successful: bool,
    current: bool,
    executed: bool,
    r: CloseOptions,
    e: CloseOptions,
)
    requires
        call_ensures(CloseOptions::requiring, (successful, current, executed), r),
        call_ensures(CloseOptions::executed, (), e),
    ensures
        r.require_successful_evidence == successful,
        r.require_current_successful_evidence == current,
        r.require_executed_evidence == executed,
        !e.require_successful_evidence && !e.require_current_successful_evidence
            && e.require_executed_evidence,
{
}

/// Links are read by their place, and two rows are the same where they hold the
/// same at every place.
pub proof fn law_links_are_read_by_their_place(
    row: Links,
    i: usize,
    n: usize,
    key: &str,
    value: &str,
    other: Links,
    same: bool,
    k: &str,
    v: &str,
    one: Links,
)
    requires
        i < row@.len(),
        call_ensures(Links::len, (&row,), n),
        call_ensures(Links::key, (&row, i), key),
        call_ensures(Links::value, (&row, i), value),
        call_ensures(Links::same, (&row, &other), same),
        call_ensures(Links::single, (k, v), one),
    ensures
        n == row@.len(),
        row@[i as int] == (key@, value@),
        same <==> row@ == other@,
        one@ == seq![(k@, v@)],
        forall|a: int, b: int|
            0 <= a < b < row@.len() ==> laws::stands_before(
                encode_utf8((#[trigger] row@[a]).0),
                encode_utf8((#[trigger] row@[b]).0),
            ),
{
    assert forall|a: int, b: int| 0 <= a < b < row@.len() implies laws::stands_before(
        encode_utf8((#[trigger] row@[a]).0),
        encode_utf8((#[trigger] row@[b]).0),
    ) by {
        assert(crate::links::key_before(row@[a].0, row@[b].0));
        laws::lemma_stands_before(encode_utf8(row@[a].0), encode_utf8(row@[b].0));
    }
}

} // verus!
