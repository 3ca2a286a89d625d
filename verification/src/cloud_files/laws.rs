//! What the mount does for the files of the drive: which of them is shown, opened
//! or deleted, and which local copies are counted and given up.

use super::error::CloudError;
use super::placeholder::{
    data_transfer, delete_completion, fetch_data, identity, law_filetime_is_exact,
    law_placeholder_names_its_item, notify_delete, placeholders, Completion, DataTransfer,
    FetchRequest, Placeholder,
};
use super::root::{sync_root, unregister, SyncRoot};
use super::storage::{
    check_target, entry_views, giving_entries, interruption, local_total, logical_total, nothing,
    reached, reached_each, reached_in, releasable_count, releasable_total,
    release_local_file, release_local_paths, release_local_storage, release_paths,
    scan_local_storage, scan_local_storage_entries, skipped_count, FoundChild,
    FoundDirectory, FoundEntry, FoundFile, LocalStorageEntry, LocalStorageStats, PlaceholderState,
};
use crate::config::Config;
use crate::names::windows_name;
use crate::path::LocalPath;
use crate::quark::client::{Download, QuarkClient};
use crate::quark::error::QuarkError;
use crate::quark::item::{DownloadData, Envelope, RemoteItem};
use crate::quark::laws::{
    asks_for_bytes, in_session, law_address_is_asked_for, law_deletion_is_asked_for,
    law_exactly_the_part_is_asked_for, once, sent_fields,
};
use crate::quark::request::{FieldView, Request};
use crate::text::texts;
use crate::wide::utf16;
use vstd::prelude::*;
use vstd::utf8::{encode_utf8, valid_utf8};

verus! {

// ---------------------------------------------------------------------------
// Showing, opening and deleting
// ---------------------------------------------------------------------------

/// Each item of a directory has its placeholder, at the same place: under the name
/// that Windows takes, as a directory exactly where the item is one, with its size
/// as far as that fits, and with the item's id.
pub proof fn law_every_item_is_shown(
    items: Vec<RemoteItem>,
    made: Vec<Placeholder>,
    i: int,
    name: &str,
    windows: String,
)
    requires
        call_ensures(placeholders, (&items,), made),
        0 <= i < items@.len(),
        name@ == items@[i].name@,
        call_ensures(windows_name, (name,), windows),
    ensures
        made@.len() == items@.len(),
        made@[i].name@ == utf16(windows@).push(0),
        made@[i].identity@ == encode_utf8(items@[i].id@),
        items@[i].is_directory ==> made@[i].metadata.attributes == 0x10,
        !items@[i].is_directory ==> made@[i].metadata.attributes == 0x80,
        items@[i].size <= i64::MAX ==> made@[i].metadata.size == items@[i].size,
        items@[i].size > i64::MAX ==> made@[i].metadata.size == i64::MAX,
{
    assert(made@[i]@.name == made@[i].name@);
}

/// A placeholder has the item's times: the one when it was made, and the one when
/// it was changed for the other three, in steps of 100 nanoseconds from the start
/// of 1601.
pub proof fn law_shown_times_are_the_items(
    items: Vec<RemoteItem>,
    made: Vec<Placeholder>,
    i: int,
)
    requires
        call_ensures(placeholders, (&items,), made),
        0 <= i < items@.len(),
        -922337203685477 <= items@[i].created_at_ms <= 910692730085477,
        -922337203685477 <= items@[i].modified_at_ms <= 910692730085477,
    ensures
        made@[i].metadata.creation_time == items@[i].created_at_ms * 10000 + 116444736000000000,
        made@[i].metadata.last_write_time == items@[i].modified_at_ms * 10000 + 116444736000000000,
        made@[i].metadata.last_access_time == made@[i].metadata.last_write_time,
        made@[i].metadata.change_time == made@[i].metadata.last_write_time,
{
    assert(made@[i]@.metadata == made@[i].metadata);
    law_filetime_is_exact(items@[i].created_at_ms as int);
    law_filetime_is_exact(items@[i].modified_at_ms as int);
}

/// A part of a file is asked for wherever the placeholder names a file and neither
/// the offset nor the length is negative, and nowhere else.
pub proof fn law_parts_are_asked_for_by_range(
    identity: Vec<u8>,
    offset: i64,
    length: i64,
    r: Result<FetchRequest, CloudError>,
)
    requires
        call_ensures(fetch_data, (identity, offset, length), r),
    ensures
        r is Ok <==> identity@.len() > 0 && valid_utf8(identity@) && offset >= 0 && length >= 0,
        r is Ok ==> {
            &&& encode_utf8(r->Ok_0.file_id@) == identity@
            &&& r->Ok_0.start == offset
            &&& r->Ok_0.end - r->Ok_0.start == length
        },
{
    broadcast use vstd::utf8::decode_utf8_encode_utf8;

}

/// Opening a placeholder asks for the contents of the very item that it was made
/// for, in the session, and for exactly the bytes that were wanted: from the
/// offset, as many as the length.
pub proof fn law_opening_asks_for_the_items_bytes(
    items: Vec<RemoteItem>,
    made: Vec<Placeholder>,
    i: int,
    identity: Vec<u8>,
    offset: i64,
    length: i64,
    fetch: FetchRequest,
    client: QuarkClient,
    file_id: &str,
    download: Download,
    located: Request,
    reply: Envelope<Vec<DownloadData>>,
    r: Result<Request, QuarkError>,
)
    requires
        call_ensures(placeholders, (&items,), made),
        0 <= i < items@.len(),
        items@[i].id@.len() > 0,
        identity@ == made@[i].identity@,
        length > 0,
        call_ensures(
            fetch_data,
            (identity, offset, length),
            Ok::<FetchRequest, CloudError>(fetch),
        ),
        file_id@ == fetch.file_id@,
        call_ensures(
            QuarkClient::download_range,
            (&client, file_id, fetch.start, fetch.end),
            download,
        ),
        call_ensures(Download::request, (&download,), located),
        call_ensures(Download::locate, (&download, reply), r),
    ensures
        in_session(located@, client.cookie@),
        once(sent_fields(located@), "fids"@, FieldView::Texts(seq![items@[i].id@])),
        r matches Ok(request) ==> exists|range: Seq<char>|
            #[trigger] once(request@.headers, "Range"@, range) && asks_for_bytes(
                range,
                offset as int,
                offset + length - 1,
            ),
{
    assert(made@[i]@.identity == made@[i].identity@);
    law_placeholder_names_its_item(items@[i]@);
    law_address_is_asked_for(client, file_id, fetch.start, fetch.end, download, located);
    law_exactly_the_part_is_asked_for(
        client,
        file_id,
        fetch.start,
        fetch.end,
        download,
        reply,
        r,
    );
}

/// What was downloaded is handed over where it was asked for, as it came; a
/// download that failed hands over nothing, and says so.
pub proof fn law_downloads_are_handed_over(
    offset: i64,
    downloaded: Option<Vec<u8>>,
    r: DataTransfer,
)
    requires
        call_ensures(data_transfer, (offset, downloaded), r),
    ensures
        r.completion == Completion::Success <==> downloaded is Some,
        downloaded is Some ==> r.offset == offset && r.data@ == downloaded->0@,
        downloaded is None ==> r.data@.len() == 0,
{
}

/// Deleting a placeholder deletes the very item that it was made for, in the
/// session. A deletion that is taken back deletes nothing.
pub proof fn law_deleting_deletes_the_item(
    items: Vec<RemoteItem>,
    made: Vec<Placeholder>,
    i: int,
    identity: Vec<u8>,
    undelete: bool,
    r: Result<String, CloudError>,
    client: QuarkClient,
    file_id: &str,
    request: Request,
)
    requires
        call_ensures(placeholders, (&items,), made),
        0 <= i < items@.len(),
        items@[i].id@.len() > 0,
        identity@ == made@[i].identity@,
        call_ensures(notify_delete, (undelete, identity), r),
        r is Ok ==> file_id@ == r->Ok_0@,
        call_ensures(QuarkClient::delete_file, (&client, file_id), request),
    ensures
        r is Ok <==> !undelete,
        r is Ok ==> r->Ok_0@ == items@[i].id@,
        r is Ok ==> in_session(request@, client.cookie@) && once(
            sent_fields(request@),
            "filelist"@,
            FieldView::Texts(seq![items@[i].id@]),
        ),
{
    assert(made@[i]@.identity == made@[i].identity@);
    law_placeholder_names_its_item(items@[i]@);
    law_deletion_is_asked_for(client, file_id, request);
}

/// The local file goes only if the remote one went.
pub proof fn law_local_file_goes_with_the_remote_one(deleted: bool, r: Completion)
    requires
        call_ensures(delete_completion, (deleted,), r),
    ensures
        r == Completion::Success <==> deleted,
{
}

/// The sync root is the mount directory, shown under the name that the user chose,
/// and its identity is the remote directory that is mounted.
pub proof fn law_sync_root_is_the_mount(config: Config, executable: &str, r: SyncRoot)
    requires
        call_ensures(sync_root, (&config, executable), r),
    ensures
        r.path@ == config.mount_path.text@,
        r.display_name@ == config.remote_root_name@,
        r.root_identity@ == config.remote_root_id@,
        r.icon@ == executable@ + ",-101"@,
{
}

/// Unregistering has failed only where the explorer knows the sync root and neither
/// it nor the file system has let go of it.
pub proof fn law_one_success_unregisters(
    shell: Option<bool>,
    file_system: bool,
    r: Result<(), CloudError>,
)
    requires
        call_ensures(unregister, (shell, file_system), r),
    ensures
        r is Err <==> shell is Some && !shell->0 && !file_system,
{
}

// ---------------------------------------------------------------------------
// Walking through the mount
// ---------------------------------------------------------------------------

/// Nothing among the entries ends a walk.
pub open spec fn smooth(entries: Seq<FoundEntry>, measuring: bool) -> bool {
    forall|i: int|
        0 <= i < entries.len() ==> match #[trigger] entries[i] {
            FoundEntry::Failed(_) => false,
            FoundEntry::File(file) => !measuring || file.length is Ok,
            _ => true,
        }
}

/// A walk comes to every file of every entry, one entry after the other: to the
/// file itself, and to all that a walk through the directory comes to.
pub proof fn law_walk_comes_to_every_entry(
    a: Seq<FoundEntry>,
    b: Seq<FoundEntry>,
    measuring: bool,
)
    requires
        smooth(a, measuring),
    ensures
        reached(a + b, measuring) == reached(a, measuring) + reached(b, measuring),
        interruption(a + b, measuring) == interruption(b, measuring),
        interruption(a, measuring) is None,
    decreases a.len(),
{
    let all = a + b;
    if a.len() == 0 {
        assert(all =~= b);
        assert(reached(a, measuring) + reached(b, measuring) =~= reached(b, measuring));
    } else {
        let rest = a.skip(1);
        assert forall|i: int| 0 <= i < rest.len() implies match #[trigger] rest[i] {
            FoundEntry::Failed(_) => false,
            FoundEntry::File(file) => !measuring || file.length is Ok,
            _ => true,
        } by {
            assert(rest[i] == a[i + 1]);
        }
        law_walk_comes_to_every_entry(rest, b, measuring);
        assert(all.skip(1) =~= rest + b);
        assert(all[0] == a[0]);
        assert(reached(all, measuring) =~= reached(a, measuring) + reached(b, measuring));
    }
}

proof fn lemma_interruption(entries: Seq<FoundEntry>, measuring: bool)
    ensures
        interruption(entries, measuring) is None <==> smooth(entries, measuring),
    decreases entries.len(),
{
    if entries.len() > 0 {
        let rest = entries.skip(1);
        lemma_interruption(rest, measuring);
        if smooth(entries, measuring) {
            law_walk_comes_to_every_entry(entries, Seq::empty(), measuring);
        }
        if interruption(entries, measuring) is None {
            assert forall|i: int| 0 <= i < entries.len() implies match #[trigger] entries[i] {
                FoundEntry::Failed(_) => false,
                FoundEntry::File(file) => !measuring || file.length is Ok,
                _ => true,
            } by {
                if i > 0 {
                    assert(rest[i - 1] == entries[i]);
                }
            }
        }
    }
}

/// What a walk comes to in one entry: the file, or what is in the directory, whether
/// or not that could be walked to its end; and nothing where there is neither.
pub proof fn law_walk_through_one_entry(entry: FoundEntry, measuring: bool)
    ensures
        entry matches FoundEntry::File(file) ==> reached(seq![entry], measuring) == seq![file],
        entry matches FoundEntry::Directory(directory) ==> {
            &&& reached(seq![entry], measuring) == reached_in(directory, measuring)
            &&& directory.entries matches Some(entries) ==> reached_in(directory, measuring)
                == reached(entries@, measuring)
            &&& directory.entries is None ==> reached_in(directory, measuring).len() == 0
        },
        entry is Other || entry is Failed ==> reached(seq![entry], measuring).len() == 0,
{
    let one = seq![entry];
    assert(one.skip(1) =~= Seq::empty());
    assert(reached(one.skip(1), measuring) =~= Seq::empty());
    match entry {
        FoundEntry::Directory(directory) => {
            assert(reached(one, measuring) =~= reached_in(directory, measuring));
        },
        FoundEntry::File(file) => {
            assert(reached(one, measuring) =~= seq![file]);
        },
        _ => {},
    }
}

/// A walk ends at the first entry that cannot be read, and, where sizes are wanted,
/// at the first file whose size cannot be read, which still counts as a file.
pub proof fn law_walk_ends_at_a_failure(
    a: Seq<FoundEntry>,
    end: FoundEntry,
    b: Seq<FoundEntry>,
    measuring: bool,
)
    requires
        smooth(a, measuring),
        !smooth(seq![end], measuring),
    ensures
        ({
            let all = a + (seq![end] + b);
            &&& end is Failed ==> {
                &&& reached(all, measuring) == reached(a, measuring)
                &&& interruption(all, measuring) == Some(CloudError::Unreadable(end->Failed_0))
            }
            &&& end matches FoundEntry::File(file) ==> {
                &&& reached(all, measuring) == reached(a, measuring).push(file)
                &&& interruption(all, measuring) == Some(
                    CloudError::Unreadable(file.length->Err_0),
                )
            }
            &&& end is Failed || end is File
        }),
{
    law_walk_comes_to_every_entry(a, seq![end] + b, measuring);
    let tail = seq![end] + b;
    assert(tail[0] == end);
    assert(!smooth(seq![end], measuring) ==> end is Failed || end is File) by {
        if !(end is Failed) && !(end is File) {
            assert forall|i: int| 0 <= i < seq![end].len() implies match #[trigger] seq![end][i] {
                FoundEntry::Failed(_) => false,
                FoundEntry::File(file) => !measuring || file.length is Ok,
                _ => true,
            } by {}
        }
    }
    match end {
        FoundEntry::File(file) => {
            if !file.stops(measuring) {
                assert(smooth(seq![end], measuring));
            }
            assert(reached(a + tail, measuring) =~= reached(a, measuring).push(file));
        },
        _ => {
            assert(reached(a + tail, measuring) =~= reached(a, measuring));
        },
    }
}

// ---------------------------------------------------------------------------
// Counting
// ---------------------------------------------------------------------------

/// The sum over some files.
pub open spec fn sum(files: Seq<FoundFile>, of: spec_fn(FoundFile) -> nat) -> nat
    decreases files.len(),
{
    if files.len() == 0 {
        0
    } else {
        sum(files.drop_last(), of) + of(files.last())
    }
}

/// The size of a file, where it can be read.
pub open spec fn size_of(file: FoundFile) -> nat {
    match file.length {
        Ok(length) => length as nat,
        Err(_) => 0,
    }
}

/// How much of a placeholder whose size can be read is on the local disk.
pub open spec fn bytes_here(file: FoundFile) -> nat {
    match file.placeholder {
        Some(state) => if file.length is Ok && state.on_disk > 0 {
            state.on_disk as nat
        } else {
            0
        },
        None => 0,
    }
}

/// Whether the user wants to keep a placeholder on this device.
pub open spec fn is_pinned(file: FoundFile) -> bool {
    file.placeholder matches Some(state) && state.pinned
}

/// How much of a file may be given up: what is here, unless the user keeps it.
pub open spec fn bytes_to_give(file: FoundFile) -> nat {
    if is_pinned(file) {
        0
    } else {
        bytes_here(file)
    }
}

/// One for a file with something to give up.
pub open spec fn gives_something(file: FoundFile) -> nat {
    if bytes_to_give(file) > 0 {
        1
    } else {
        0
    }
}

/// One for a file whose size can be read and that is no placeholder.
pub open spec fn is_no_placeholder(file: FoundFile) -> nat {
    if file.length is Ok && file.placeholder is None {
        1
    } else {
        0
    }
}

/// `n`, or the largest number that fits.
pub open spec fn at_most_all(n: nat) -> int {
    if n > u64::MAX {
        u64::MAX as int
    } else {
        n as int
    }
}

/// A count says of some files what they take in the cloud and here, and what may be
/// given up.
pub open spec fn counts(stats: LocalStorageStats, files: Seq<FoundFile>) -> bool {
    &&& stats.logical_bytes == at_most_all(sum(files, |f: FoundFile| size_of(f)))
    &&& stats.local_bytes == at_most_all(sum(files, |f: FoundFile| bytes_here(f)))
    &&& stats.releasable_bytes == at_most_all(sum(files, |f: FoundFile| bytes_to_give(f)))
    &&& stats.file_count == at_most_all(files.len())
    &&& stats.releasable_files == at_most_all(sum(files, |f: FoundFile| gives_something(f)))
    &&& stats.skipped_files == at_most_all(sum(files, |f: FoundFile| is_no_placeholder(f)))
}

proof fn lemma_sums(files: Seq<FoundFile>)
    ensures
        sum(files, |f: FoundFile| size_of(f)) == logical_total(files),
        sum(files, |f: FoundFile| bytes_here(f)) == local_total(files),
        sum(files, |f: FoundFile| bytes_to_give(f)) == releasable_total(files),
        sum(files, |f: FoundFile| gives_something(f)) == releasable_count(files),
        sum(files, |f: FoundFile| is_no_placeholder(f)) == skipped_count(files),
    decreases files.len(),
{
    if files.len() > 0 {
        lemma_sums(files.drop_last());
    }
}

proof fn lemma_counts(files: Seq<FoundFile>)
    ensures
        counts(nothing().plus(files), files),
{
    lemma_sums(files);
}

/// The local space is measured wherever the mount directory can be read to its end,
/// and the count says of all files that the walk comes to what they take.
pub proof fn law_local_space_is_measured(
    root: FoundDirectory,
    r: Result<LocalStorageStats, CloudError>,
)
    requires
        call_ensures(scan_local_storage, (&root,), r),
    ensures
        r is Ok ==> counts(r->Ok_0, reached_in(root, true)),
        r is Ok <==> root.entries is Some && smooth(root.entries->0@, true),
        root.entries is None ==> r == Err::<LocalStorageStats, CloudError>(
            CloudError::Unscannable(root.path),
        ),
{
    lemma_counts(reached_in(root, true));
    if let Some(entries) = root.entries {
        lemma_interruption(entries@, true);
    }
}

// ---------------------------------------------------------------------------
// Giving up
// ---------------------------------------------------------------------------

/// A file whose local copy may be given up: a placeholder that the user does not
/// keep, with something of it here.
pub open spec fn may_go(file: FoundFile) -> bool {
    file.placeholder matches Some(state) && !state.pinned && state.on_disk > 0
}

proof fn lemma_release_paths(files: Seq<FoundFile>)
    ensures
        forall|i: int|
            0 <= i < files.len() && may_go(#[trigger] files[i]) ==> release_paths(files).contains(
                files[i].path@,
            ),
        forall|k: int|
            0 <= k < release_paths(files).len() ==> goes(files, #[trigger] release_paths(files)[k]),
    decreases files.len(),
{
    if files.len() > 0 {
        let init = files.drop_last();
        lemma_release_paths(init);
        let all = release_paths(files);
        let before = release_paths(init);
        assert forall|i: int| 0 <= i < files.len() && may_go(#[trigger] files[i]) implies all.contains(
            files[i].path@,
        ) by {
            if i < init.len() {
                assert(init[i] == files[i]);
                let k = choose|k: int| 0 <= k < before.len() && before[k] == init[i].path@;
                assert(all[k] == before[k]);
            } else {
                assert(all[before.len() as int] == files[i].path@);
            }
        }
        assert forall|k: int| 0 <= k < all.len() implies goes(files, #[trigger] all[k]) by {
            if k < before.len() {
                assert(all[k] == before[k]);
                assert(goes(init, before[k]));
                let i = choose|i: int|
                    0 <= i < init.len() && may_go(#[trigger] init[i]) && init[i].path@ == before[k];
                assert(files[i] == init[i]);
            } else {
                assert(may_go(files[files.len() - 1]));
            }
        }
    }
}

/// A path is that of a file among these whose local copy may be given up.
pub open spec fn goes(files: Seq<FoundFile>, path: Seq<char>) -> bool {
    exists|i: int| 0 <= i < files.len() && may_go(#[trigger] files[i]) && files[i].path@ == path
}

/// What is given up is every file of the mount that may be, and no other.
pub proof fn law_exactly_what_may_go_is_given_up(
    root: FoundDirectory,
    r: (Vec<String>, Result<(), CloudError>),
)
    requires
        call_ensures(release_local_storage, (&root,), r),
    ensures
        forall|i: int|
            0 <= i < reached_in(root, false).len() && may_go(#[trigger] reached_in(root, false)[i])
                ==> texts(r.0@).contains(reached_in(root, false)[i].path@),
        forall|k: int|
            0 <= k < r.0@.len() ==> goes(reached_in(root, false), (#[trigger] r.0@[k])@),
        r.1 is Ok <==> root.entries is Some && smooth(root.entries->0@, false),
{
    lemma_release_paths(reached_in(root, false));
    assert forall|k: int| 0 <= k < r.0@.len() implies goes(
        reached_in(root, false),
        (#[trigger] r.0@[k])@,
    ) by {
        assert(texts(r.0@)[k] == r.0@[k]@);
        assert(release_paths(reached_in(root, false))[k] == r.0@[k]@);
    }
    if let Some(entries) = root.entries {
        lemma_interruption(entries@, false);
    }
}

/// A single file is given up exactly where it lies below the mount and may go; one
/// that lies elsewhere is refused.
pub proof fn law_single_file_is_given_up(
    root: LocalPath,
    target: LocalPath,
    placeholder: Option<PlaceholderState>,
    r: Result<bool, CloudError>,
)
    requires
        call_ensures(release_local_file, (&root, &target, &placeholder), r),
    ensures
        r is Ok <==> target@.descends(root@),
        r is Err ==> r->Err_0 == CloudError::OutsideMount,
        r is Ok ==> (r->Ok_0 <==> placeholder is Some && !placeholder->0.pinned
            && placeholder->0.on_disk > 0),
{
}

/// What is given up of several selected entries is what is given up of each: of a
/// directory all that may go in it, and of a file the file itself, if it may go.
pub proof fn law_selections_are_given_up_one_by_one(
    selected: Vec<FoundEntry>,
    entry: FoundEntry,
    more: Vec<FoundEntry>,
    r: Vec<String>,
    longer: Vec<String>,
)
    requires
        more@ == selected@.push(entry),
        call_ensures(release_local_paths, (&selected,), r),
        call_ensures(release_local_paths, (&more,), longer),
    ensures
        selected@.len() == 0 ==> r@.len() == 0,
        entry matches FoundEntry::File(file) ==> texts(longer@) == (if may_go(file) {
            texts(r@).push(file.path@)
        } else {
            texts(r@)
        }),
        entry matches FoundEntry::Directory(directory) ==> forall|whole: (
            Vec<String>,
            Result<(), CloudError>,
        )|
            #[trigger] call_ensures(release_local_storage, (&directory,), whole) ==> texts(longer@)
                == texts(r@) + texts(whole.0@),
        entry is Other || entry is Failed ==> texts(longer@) == texts(r@),
{
    assert(more@.drop_last() =~= selected@);
    law_walk_through_one_entry(entry, false);
    let before = reached_each(selected@);
    let new = reached(seq![entry], false);
    super::storage::lemma_release_paths_append(before, new);
    assert(texts(r@).len() == r@.len());
    match entry {
        FoundEntry::File(file) => {
            super::storage::lemma_release_one(file);
            assert(texts(longer@) =~= (if may_go(file) {
                texts(r@).push(file.path@)
            } else {
                texts(r@)
            }));
        },
        FoundEntry::Directory(directory) => {},
        _ => {
            assert(new =~= Seq::empty());
            assert(release_paths(new) =~= Seq::empty());
            assert(texts(longer@) =~= texts(r@));
        },
    }
}

/// An entry at the top of the mount is listed exactly where it has something to give
/// up, with how much it is and in how many files, behind those before it.
pub proof fn law_entries_are_listed_one_by_one(
    children: Vec<FoundChild>,
    child: FoundChild,
    more: Vec<FoundChild>,
    r: Vec<LocalStorageEntry>,
    longer: Vec<LocalStorageEntry>,
)
    requires
        more@ == children@.push(child),
        call_ensures(scan_local_storage_entries, (&children,), r),
        call_ensures(scan_local_storage_entries, (&more,), longer),
    ensures
        children@.len() == 0 ==> r@.len() == 0,
        ({
            let files = reached(seq![child.entry], true);
            let bytes = at_most_all(sum(files, |f: FoundFile| bytes_to_give(f)));
            let count = at_most_all(sum(files, |f: FoundFile| gives_something(f)));
            if bytes > 0 {
                &&& longer@.len() == r@.len() + 1
                &&& entry_views(longer@).drop_last() == entry_views(r@)
                &&& longer@.last().path@ == child.path@
                &&& longer@.last().releasable_bytes == bytes
                &&& longer@.last().file_count == count
            } else {
                entry_views(longer@) == entry_views(r@)
            }
        }),
{
    assert(more@.drop_last() =~= children@);
    let files = reached(seq![child.entry], true);
    lemma_counts(files);
    let before = giving_entries(children@);
    assert(entry_views(r@).len() == r@.len());
    assert(entry_views(longer@).len() == longer@.len());
    if nothing().plus(files).releasable_bytes > 0 {
        assert(entry_views(longer@).drop_last() =~= before);
        assert(entry_views(longer@).last() == longer@.last()@);
    }
}

/// A file that is to be given up must lie below the mount, and the mount itself does
/// not.
pub proof fn law_only_files_below_the_mount_are_targets(
    root: LocalPath,
    target: LocalPath,
    own: Result<(), CloudError>,
    r: Result<(), CloudError>,
)
    requires
        call_ensures(check_target, (&root, &target), r),
        call_ensures(check_target, (&root, &root), own),
    ensures
        own == Err::<(), CloudError>(CloudError::OutsideMount),
        r is Ok <==> target@.descends(root@),
        r is Err ==> r->Err_0 == CloudError::OutsideMount,
{
    crate::path::law_descent(root@, root@, root@, Seq::empty());
}

/// A placeholder's identity is read as it was written: any text but the empty one
/// comes back, and bytes that are no text are refused.
pub proof fn law_identities_read_back(bytes: Vec<u8>, id: Seq<char>, r: Result<String, CloudError>)
    requires
        call_ensures(identity, (bytes,), r),
    ensures
        bytes@ == encode_utf8(id) && id.len() > 0 ==> r is Ok && r->Ok_0@ == id,
        bytes@.len() == 0 ==> r == Err::<String, CloudError>(CloudError::NoIdentity),
        bytes@.len() > 0 && !valid_utf8(bytes@) ==> r == Err::<String, CloudError>(
            CloudError::IdentityNotUtf8,
        ),
{
    broadcast use {vstd::utf8::encode_utf8_valid_utf8, vstd::utf8::encode_utf8_decode_utf8};

    if bytes@ == encode_utf8(id) && id.len() > 0 {
        assert(vstd::utf8::decode_utf8(bytes@) == id);
        if bytes@.len() == 0 {
            assert(vstd::utf8::decode_utf8(bytes@).len() == 0);
        }
    }
}

} // verus!
