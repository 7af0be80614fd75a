//! How paths from Git are written down, and what is counted of ignored content.

use vstd::prelude::*;
use vstd::string::*;
use vstd::utf8::*;

use crate::error::Error;
use crate::files::FileName;
use crate::git_path::GitPath;
use crate::inventory::{
    IgnoredContentInventory, IgnoredEntry, InventoryRun, NextView, OpenedFile,
};
use crate::laws::exporting;
use crate::laws::measuring;
use crate::laws::places;
use crate::order::Ordered;
use crate::paths::NativePath;
use crate::{bytes, digest, git_path, inventory, laws, order, paths, record};

verus! {

/// Whether a written path stands for the path with these bytes: text for bytes
/// that are UTF-8, and hexadecimal digits for any others.
pub open spec fn stands_for(g: GitPath, raw: Seq<u8>) -> bool {
    match g {
        GitPath::Utf8(t) => encode_utf8(t@) == raw,
        GitPath::UnixBytes { unix_bytes_hex } => digest::hex_of(raw) == unix_bytes_hex@
            && !valid_utf8(raw),
    }
}

/// Whether a written path stands for any path.
pub open spec fn has_path(g: GitPath) -> bool {
    exists|raw: Seq<u8>| stands_for(g, raw)
}

/// Whether a path stays below where it is read from.
pub open spec fn stays_below(p: Seq<u8>) -> bool {
    !places::is_rooted(p) && !exporting::parts(p).contains(seq![46u8, 46u8])
}

pub(crate) proof fn lemma_stands_for(g: GitPath)
    ensures
        has_path(g) <==> git_path::is_canonical(g@),
        git_path::is_canonical(g@) ==> stands_for(g, git_path::raw_of(g@)),
        forall|raw: Seq<u8>| #[trigger] stands_for(g, raw) ==> raw == git_path::raw_of(g@),
{
    assert forall|raw: Seq<u8>| #[trigger] stands_for(g, raw) implies raw == git_path::raw_of(g@)
        && git_path::is_canonical(g@) by {
        digest::lemma_hex_of_is_lower(raw);
        digest::lemma_unhex_of_hex(raw);
    }
    if git_path::is_canonical(g@) {
        if let GitPath::UnixBytes { unix_bytes_hex } = g {
            digest::lemma_hex_of_unhex(unix_bytes_hex@);
        }
        assert(stands_for(g, git_path::raw_of(g@)));
    }
}

proof fn lemma_stays_below(p: Seq<u8>)
    ensures
        stays_below(p) <==> paths::is_confined(p),
{
    places::lemma_names(p);
    places::lemma_pieces(p);
    assert(exporting::parts(p) == paths::components(p));
}

/// Every path has one way to be written, and what is written is read as that
/// path. Anything else is not read at all.
pub proof fn law_paths_are_written_one_way(
    raw: Vec<u8>,
    written: GitPath,
    g: GitPath,
    read: Option<NativePath>,
    valid: bool,
    label: String,
)
    requires
        call_ensures(GitPath::from_raw, (raw,), written),
        call_ensures(GitPath::to_path, (&g,), read),
        call_ensures(GitPath::is_valid_encoding, (&g,), valid),
        call_ensures(GitPath::label, (&g,), label),
    ensures
        stands_for(written, raw@),
        (written is Utf8) <==> valid_utf8(raw@),
        valid <==> has_path(g),
        read is Some <==> has_path(g),
        read matches Some(p) ==> stands_for(g, p.bytes@),
        laws::same_path(g, written) ==> (read matches Some(p) && p.bytes@ == raw@),
        g matches GitPath::Utf8(t) ==> label@ == t@,
        g matches GitPath::UnixBytes { unix_bytes_hex } ==> label@ == unix_bytes_hex@,
{
    lemma_stands_for(g);
    lemma_stands_for(written);
    git_path::law_one_encoding_per_path(written@, raw@);
    if valid_utf8(raw@) {
        decode_utf8_encode_utf8(raw@);
    }
    assert(stands_for(written, raw@));
    if laws::same_path(g, written) {
        assert(stands_for(g, raw@));
    }
}

/// An ignored path is read exactly where it stands for a path that stays below
/// the workspace.
pub proof fn law_ignored_paths_stay_below_the_workspace(
    g: GitPath,
    r: std::result::Result<NativePath, Error>,
    row: Vec<GitPath>,
    valid: bool,
)
    requires
        call_ensures(git_path::safe_ignored_relative, (&g,), r),
        call_ensures(git_path::inventory_canonical, (&row,), valid),
    ensures
        r is Ok <==> exists|raw: Seq<u8>| #[trigger] stands_for(g, raw) && stays_below(raw),
        r matches Ok(p) ==> stands_for(g, p.bytes@) && stays_below(p.bytes@),
        valid <==> forall|i: int| 0 <= i < row@.len() ==> has_path(#[trigger] row@[i]),
{
    lemma_stands_for(g);
    lemma_stays_below(git_path::raw_of(g@));
    assert forall|i: int| 0 <= i < row@.len() implies (has_path(#[trigger] row@[i])
        <==> git_path::is_canonical(row@[i]@)) by {
        lemma_stands_for(row@[i]);
    }
    if valid {
        assert forall|i: int| 0 <= i < row@.len() implies has_path(#[trigger] row@[i]) by {
            assert(git_path::is_canonical(row@[i]@));
        }
    } else {
        let i = choose|i: int|
            0 <= i < row@.len() && !git_path::is_canonical((#[trigger] row@[i])@);
        assert(!has_path(row@[i]));
    }
    if r is Ok {
        assert(stands_for(g, git_path::raw_of(g@)));
    }
}

/// A path as the digest covers it.
pub open spec fn field(name: Seq<char>, p: Seq<u8>) -> Seq<u8> {
    laws::behind_length(encode_utf8(name)) + encode_utf8("unix-bytes"@) + laws::behind_length(p)
}

proof fn lemma_field(name: Seq<char>, p: Seq<u8>)
    ensures
        field(name, p) == inventory::native_field(name, p),
{
    laws::lemma_behind_length(encode_utf8(name));
    laws::lemma_behind_length(p);
}

/// Whether a file was read whole while it held still.
pub open spec fn is_whole(listed: u64, opened: std::result::Result<OpenedFile, Error>) -> bool {
    opened matches Ok(f) && f.regular && f.size == listed && (f.content matches Ok(c) && c@.len()
        == listed) && f.size_after == Ok::<u64, Error>(listed)
}

/// What an entry adds to the size.
pub open spec fn size_of(e: IgnoredEntry) -> int {
    match e {
        IgnoredEntry::Link { size, .. } => size as int,
        IgnoredEntry::File { listed, .. } => listed as int,
        _ => 0,
    }
}

/// Whether an entry could be read.
pub open spec fn is_readable(e: IgnoredEntry) -> bool {
    match e {
        IgnoredEntry::Link { target, .. } => target is Ok,
        IgnoredEntry::File { listed, opened } => is_whole(listed, opened),
        IgnoredEntry::Directory { entries } => entries is Ok,
        IgnoredEntry::Special => false,
    }
}

/// What the digest covers of an entry: where it is, what it is, and what it
/// holds.
pub open spec fn covered(relative: Seq<u8>, e: IgnoredEntry) -> Seq<u8> {
    field("relative"@, relative) + match e {
        IgnoredEntry::Link { target, .. } => encode_utf8("link"@) + field(
            "target"@,
            target->Ok_0.bytes@,
        ),
        IgnoredEntry::File { opened, .. } => encode_utf8("file"@) + laws::behind_length(
            opened->Ok_0.content->Ok_0@,
        ),
        _ => encode_utf8("dir"@),
    }
}

/// Whether a row holds exactly the names of another, in their order.
pub open spec fn is_in_name_order(row: Seq<FileName>, names: Seq<FileName>) -> bool {
    &&& row.to_multiset() == names.to_multiset()
    &&& row.len() == names.len()
    &&& forall|i: int, j: int|
        0 <= i < j < row.len() ==> !laws::stands_before(
            (#[trigger] row[j]).bytes@,
            (#[trigger] row[i]).bytes@,
        )
}

pub(crate) proof fn lemma_name_order(names: Seq<FileName>)
    ensures
        is_in_name_order(order::sorted(names), names),
{
    order::lemma_sorted_is_permutation(names);
    assert forall|a: FileName, b: FileName| #[trigger] a.precedes(b) implies !b.precedes(a) by {
        measuring::lemma_order(a.bytes@, b.bytes@, a.bytes@);
    }
    assert forall|a: FileName, b: FileName, c: FileName|
        !(#[trigger] b.precedes(a)) && !(#[trigger] c.precedes(b)) implies !c.precedes(a) by {
        measuring::lemma_order(a.bytes@, b.bytes@, c.bytes@);
    }
    order::lemma_sorted_in_order(names);
    let row = order::sorted(names);
    assert forall|i: int, j: int| 0 <= i < j < row.len() implies !laws::stands_before(
        (#[trigger] row[j]).bytes@,
        (#[trigger] row[i]).bytes@,
    ) by {
        assert(!row[j].precedes(row[i]));
        laws::lemma_stands_before(row[j].bytes@, row[i].bytes@);
    }
}

/// Whether paths are those of a directory's entries, the first name last.
pub open spec fn are_children(added: Seq<NativePath>, relative: Seq<u8>, row: Seq<FileName>) -> bool {
    added.len() == row.len() && forall|k: int|
        0 <= k < added.len() ==> (#[trigger] added[k]).bytes@ == places::child(
            relative,
            row[row.len() - 1 - k].bytes@,
        )
}

/// An entry is taken in exactly where it was read whole and its size can still
/// be counted. Its size is added, the digest comes to cover it after all that it
/// covered before, and what a directory holds is looked at next, by name.
pub proof fn law_entries_are_taken_in_whole(
    run: InventoryRun,
    relative: NativePath,
    path: NativePath,
    e: IgnoredEntry,
    r: std::result::Result<InventoryRun, Error>,
)
    requires
        call_ensures(InventoryRun::accept, (run, &relative, &path, e), r),
    ensures
        r is Ok <==> is_readable(e) && run.total + size_of(e) <= u64::MAX,
        r matches Ok(next) ==> {
            &&& next.roots == run.roots
            &&& next.begun == run.begun
            &&& next.seen == run.seen
            &&& next.total == run.total + size_of(e)
            &&& next.preimage@ == run.preimage@ + covered(relative.bytes@, e)
            &&& run.pending@.len() <= next.pending@.len()
            &&& forall|i: int|
                0 <= i < run.pending@.len() ==> (#[trigger] next.pending@[i]).bytes@
                    == run.pending@[i].bytes@
            &&& if let IgnoredEntry::Directory { entries } = e {
                exists|row: Seq<FileName>| #[trigger]
                    is_in_name_order(row, entries->Ok_0@) && are_children(
                        next.pending@.skip(run.pending@.len() as int),
                        relative.bytes@,
                        row,
                    )
            } else {
                next.pending@.len() == run.pending@.len()
            }
        },
{
    lemma_field("relative"@, relative.bytes@);
    if let IgnoredEntry::Link { target, .. } = e {
        if let Ok(t) = target {
            lemma_field("target"@, t.bytes@);
        }
    }
    if let IgnoredEntry::File { opened, .. } = e {
        if let Ok(f) = opened {
            if let Ok(c) = f.content {
                laws::lemma_behind_length(c@);
                assert(c.len() <= usize::MAX);
            }
        }
    }
    if let Ok(next) = r {
        laws::lemma_views(next.pending@);
        laws::lemma_views(run.pending@);
        let head = inventory::native_field("relative"@, relative.bytes@);
        let added = inventory::addition_of(relative.bytes@, path.bytes@, e)->Ok_0;
        assert(added.preimage =~= covered(relative.bytes@, e));
        assert forall|i: int| 0 <= i < run.pending@.len() implies (
        #[trigger] next.pending@[i]).bytes@ == run.pending@[i].bytes@ by {
            assert(record::views(next.pending@)[i] == record::views(run.pending@)[i]);
        }
        if let IgnoredEntry::Directory { entries } = e {
            let names = entries->Ok_0@;
            let row = order::sorted(names);
            lemma_name_order(names);
            let n = run.pending@.len() as int;
            let more = next.pending@.skip(n);
            assert forall|k: int| 0 <= k < more.len() implies (#[trigger] more[k]).bytes@
                == places::child(relative.bytes@, row[row.len() - 1 - k].bytes@) by {
                assert(record::views(next.pending@)[n + k] == added.children[k]);
                places::lemma_child(relative.bytes@, row[row.len() - 1 - k].bytes@);
            }
            assert(are_children(more, relative.bytes@, row));
        }
    }
}

/// An inventory begins with nothing looked at, and ends with what was: the paths
/// that Git reported, the bytes, and one digest of everything covered.
pub proof fn law_inventories_say_what_was_covered(
    roots: Vec<GitPath>,
    run: InventoryRun,
    ended: InventoryRun,
    r: IgnoredContentInventory,
)
    requires
        call_ensures(InventoryRun::start, (roots,), run),
        call_ensures(InventoryRun::finish, (ended,), r),
    ensures
        run.roots == roots,
        run.begun == 0 && run.pending@.len() == 0 && run.seen@.len() == 0 && run.total == 0,
        run.preimage@ == encode_utf8("change-capsule ignored-content inventory v2\0"@),
        r.paths == ended.roots,
        r.bytes == ended.total,
        r.content_sha256@ == digest::hex_of(digest::sha256_of(ended.preimage@)@),
{
}

/// Whether a path was looked at.
pub open spec fn is_seen(run: InventoryRun, p: Seq<u8>) -> bool {
    exists|i: int| 0 <= i < run.seen@.len() && places::same_place((#[trigger] run.seen@[i]).bytes@, p)
}

proof fn lemma_seen(run: InventoryRun, p: Seq<u8>)
    ensures
        is_seen(run, p) <==> inventory::was_seen(record::views(run.seen@), p),
{
    laws::lemma_views(run.seen@);
    let all = record::views(run.seen@);
    if is_seen(run, p) {
        let i = choose|i: int|
            0 <= i < run.seen@.len() && places::same_place((#[trigger] run.seen@[i]).bytes@, p);
        places::lemma_same_place(run.seen@[i].bytes@, p);
        assert(paths::same(all[i], p));
    }
    if inventory::was_seen(all, p) {
        let i = choose|i: int| 0 <= i < all.len() && paths::same(#[trigger] all[i], p);
        places::lemma_same_place(run.seen@[i].bytes@, p);
    }
}

/// Whether a root was looked at already.
pub open spec fn is_passed(run: InventoryRun, k: int) -> bool {
    exists|raw: Seq<u8>| #[trigger]
        stands_for(run.roots@[k], raw) && stays_below(raw) && is_seen(run, raw)
}

proof fn lemma_unseen_end(pending: Seq<Seq<u8>>, seen: Seq<Seq<u8>>)
    ensures
        ({
            let rest = inventory::unseen_end(pending, seen);
            &&& rest.len() <= pending.len()
            &&& rest == pending.take(rest.len() as int)
            &&& rest.len() > 0 ==> !inventory::was_seen(seen, rest.last())
            &&& forall|i: int|
                rest.len() <= i < pending.len() ==> inventory::was_seen(seen, #[trigger] pending[i])
        }),
    decreases pending.len(),
{
    let rest = inventory::unseen_end(pending, seen);
    if pending.len() > 0 && inventory::was_seen(seen, pending.last()) {
        lemma_unseen_end(pending.drop_last(), seen);
        assert(pending.drop_last().take(rest.len() as int) =~= pending.take(rest.len() as int));
        assert forall|i: int| rest.len() <= i < pending.len() implies inventory::was_seen(
            seen,
            #[trigger] pending[i],
        ) by {
            if i < pending.len() - 1 {
                assert(pending.drop_last()[i] == pending[i]);
            }
        }
    } else {
        assert(rest =~= pending.take(rest.len() as int));
    }
}

proof fn lemma_root(run: InventoryRun, k: int)
    requires
        0 <= k < run.roots@.len(),
    ensures
        record::views(run.roots@)[k] == run.roots@[k]@,
        git_path::ignored_relative_of(run.roots@[k]@) matches Ok(p) ==> {
            &&& stands_for(run.roots@[k], p)
            &&& stays_below(p)
            &&& is_seen(run, p) <==> inventory::was_seen(record::views(run.seen@), p)
            &&& is_seen(run, p) ==> is_passed(run, k)
        },
{
    let g = run.roots@[k];
    lemma_stands_for(g);
    let p = git_path::raw_of(g@);
    lemma_stays_below(p);
    lemma_seen(run, p);
}

proof fn lemma_next_root(run: InventoryRun, begun: nat)
    requires
        begun <= run.roots@.len(),
    ensures
        match inventory::next_root(record::views(run.roots@), begun, record::views(run.seen@)) {
            NextView::Path(p, pending, now) => {
                &&& begun < now <= run.roots@.len()
                &&& pending.len() == 0
                &&& stands_for(run.roots@[now - 1], p) && stays_below(p) && !is_seen(run, p)
                &&& forall|k: int| begun <= k < now - 1 ==> #[trigger] is_passed(run, k)
            },
            NextView::Done => forall|k: int|
                begun <= k < run.roots@.len() ==> #[trigger] is_passed(run, k),
            NextView::Fail(_) => true,
        },
    decreases run.roots@.len() - begun,
{
    if begun < run.roots@.len() {
        lemma_root(run, begun as int);
        if let Ok(p) = git_path::ignored_relative_of(run.roots@[begun as int]@) {
            if inventory::was_seen(record::views(run.seen@), p) {
                lemma_next_root(run, begun + 1);
            }
        }
    }
}

/// No path is looked at twice and none is passed over: what is named next was
/// not looked at yet, and everything that waited behind it was. Nothing is named
/// any more only where everything was looked at.
pub proof fn law_every_path_is_looked_at_once(run: InventoryRun)
    requires
        run.begun <= run.roots@.len(),
    ensures
        match run.upcoming() {
            NextView::Path(p, pending, begun) => {
                &&& !is_seen(run, p)
                &&& if begun == run.begun {
                    &&& pending.len() < run.pending@.len()
                    &&& p == run.pending@[pending.len() as int].bytes@
                    &&& forall|i: int|
                        0 <= i < pending.len() ==> #[trigger] pending[i] == run.pending@[i].bytes@
                    &&& forall|i: int|
                        pending.len() < i < run.pending@.len() ==> is_seen(
                            run,
                            (#[trigger] run.pending@[i]).bytes@,
                        )
                } else {
                    &&& run.begun < begun <= run.roots@.len()
                    &&& pending.len() == 0
                    &&& stands_for(run.roots@[begun - 1], p) && stays_below(p)
                    &&& forall|k: int| run.begun <= k < begun - 1 ==> #[trigger] is_passed(run, k)
                    &&& forall|i: int|
                        0 <= i < run.pending@.len() ==> is_seen(
                            run,
                            (#[trigger] run.pending@[i]).bytes@,
                        )
                }
            },
            NextView::Done => {
                &&& forall|k: int|
                    run.begun <= k < run.roots@.len() ==> #[trigger] is_passed(run, k)
                &&& forall|i: int|
                    0 <= i < run.pending@.len() ==> is_seen(run, (#[trigger] run.pending@[i]).bytes@)
            },
            NextView::Fail(_) => true,
        },
{
    laws::lemma_views(run.pending@);
    let all = record::views(run.pending@);
    let seen = record::views(run.seen@);
    let rest = inventory::unseen_end(all, seen);
    lemma_unseen_end(all, seen);
    lemma_next_root(run, run.begun as nat);
    assert forall|i: int| rest.len() <= i < run.pending@.len() implies is_seen(
        run,
        (#[trigger] run.pending@[i]).bytes@,
    ) by {
        assert(inventory::was_seen(seen, all[i]));
        lemma_seen(run, run.pending@[i].bytes@);
    }
    if rest.len() > 0 {
        let n = rest.len() - 1;
        assert(rest.last() == all[n]);
        lemma_seen(run, all[n]);
        assert forall|i: int| 0 <= i < n implies #[trigger] rest.drop_last()[i]
            == run.pending@[i].bytes@ by {
            assert(rest[i] == all[i]);
        }
    }
}

/// Ignored content held still exactly where two inventories of it say the same.
pub proof fn law_ignored_content_is_compared_whole(
    a: IgnoredContentInventory,
    b: IgnoredContentInventory,
    r: std::result::Result<(), Error>,
)
    requires
        call_ensures(inventory::require_stable_ignored_content, (&a, &b), r),
    ensures
        r is Ok <==> laws::same_paths(a.paths@, b.paths@) && a.bytes == b.bytes && a.content_sha256@
            == b.content_sha256@,
        r matches Err(e) ==> e is UnsafeState,
{
    laws::lemma_same_paths(a.paths@, b.paths@);
}

} // verus!
