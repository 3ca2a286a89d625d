//! The local space, as the settings window shows it and gives it back.

use super::size::{format_bytes, size_text};
use crate::cloud_files::storage::{LocalStorageEntry, LocalStorageStats};
use crate::digits::{decimal, decimal_u64, decimal_usize};
use crate::path::{LocalPath, PathView};
use vstd::prelude::*;

verus! {

/// What is being done to the local space.
#[derive(Debug)]
pub enum StorageTask {
    /// It is measured.
    Scan,
    /// What was selected is given back, this much of it expected.
    Release { selected: Vec<LocalPath>, expected_bytes: u64 },
}

/// The views of some paths.
pub open spec fn path_views(paths: Seq<LocalPath>) -> Seq<PathView> {
    paths.map_values(|p: LocalPath| p@)
}

// ---------------------------------------------------------------------------
// Labels
// ---------------------------------------------------------------------------

/// The line of an entry in the list.
pub open spec fn entry_line(name: Seq<char>, bytes: nat, files: nat) -> Seq<char> {
    name + "   "@ + size_text(bytes) + "   ("@ + decimal(files) + " 个文件)"@
}

/// The line of an entry in the list. It is named by the last part of its path
/// where that is a text, and by the whole path where it is not.
pub fn storage_label(name: Option<&str>, entry: &LocalStorageEntry) -> (r: String)
    ensures
        r@ == entry_line(
            match name {
                Some(text) => text@,
                None => entry.path.text@,
            },
            entry.releasable_bytes as nat,
            entry.file_count as nat,
        ),
{
    let mut line = match name {
        Some(text) => text.to_owned(),
        None => entry.path.text.clone(),
    };
    let size = format_bytes(entry.releasable_bytes);
    let files = decimal_u64(entry.file_count);
    line.append("   ");
    line.append(size.as_str());
    line.append("   (");
    line.append(files.as_str());
    line.append(" 个文件)");
    line
}

/// The line that says what is going on.
pub fn task_status(task: &StorageTask) -> (r: String)
    ensures
        r@ == (if task is Scan {
            "正在检测本地文件容量…"@
        } else {
            "正在按选择安全释放本地空间…"@
        }),
{
    match task {
        StorageTask::Scan => "正在检测本地文件容量…".to_owned(),
        StorageTask::Release { .. } => "正在按选择安全释放本地空间…".to_owned(),
    }
}

/// What is shown once the local space was measured.
#[derive(Debug)]
pub struct StorageReport {
    pub status: String,
    pub detail: String,
    /// Whether there is something to give back.
    pub can_release: bool,
    /// What the user is told of what was given back.
    pub released: Option<String>,
}

pub open spec fn status_line(stats: LocalStorageStats) -> Seq<char> {
    "本地占用 "@ + size_text(stats.local_bytes as nat) + " · 可释放 "@ + size_text(
        stats.releasable_bytes as nat,
    )
}

pub open spec fn detail_line(stats: LocalStorageStats) -> Seq<char> {
    "云端文件总容量 "@ + size_text(stats.logical_bytes as nat) + " · "@ + decimal(
        stats.releasable_files as nat,
    ) + " 个文件已占用本地空间"@
}

/// How much less there is to give back than was expected, or nothing.
pub open spec fn given_back(expected: u64, stats: LocalStorageStats) -> nat {
    if expected > stats.releasable_bytes {
        (expected - stats.releasable_bytes) as nat
    } else {
        0
    }
}

pub open spec fn released_line(expected: u64, stats: LocalStorageStats) -> Seq<char> {
    "已释放 "@ + size_text(given_back(expected, stats)) + " 本地空间。云端文件保持不变。"@
}

/// What is shown once the local space was measured.
pub fn finish_storage_task(task: &StorageTask, stats: &LocalStorageStats) -> (r: StorageReport)
    ensures
        r.status@ == status_line(*stats),
        r.detail@ == detail_line(*stats),
        r.can_release == (stats.releasable_bytes > 0),
        match *task {
            StorageTask::Scan => r.released is None,
            StorageTask::Release { expected_bytes, .. } => r.released matches Some(text) && text@
                == released_line(expected_bytes, *stats),
        },
{
    let mut status = "本地占用 ".to_owned();
    status.append(format_bytes(stats.local_bytes).as_str());
    status.append(" · 可释放 ");
    status.append(format_bytes(stats.releasable_bytes).as_str());
    let mut detail = "云端文件总容量 ".to_owned();
    detail.append(format_bytes(stats.logical_bytes).as_str());
    detail.append(" · ");
    detail.append(decimal_u64(stats.releasable_files).as_str());
    detail.append(" 个文件已占用本地空间");
    let released = match task {
        StorageTask::Scan => None,
        StorageTask::Release { expected_bytes, .. } => {
            let freed: u64 = expected_bytes.saturating_sub(stats.releasable_bytes);
            let mut text = "已释放 ".to_owned();
            text.append(format_bytes(freed).as_str());
            text.append(" 本地空间。云端文件保持不变。");
            Some(text)
        },
    };
    StorageReport { status, detail, can_release: stats.releasable_bytes > 0, released }
}

// ---------------------------------------------------------------------------
// Selecting what to give back
// ---------------------------------------------------------------------------

/// The paths of the entries at some places of the list. A place outside the list
/// has none.
pub open spec fn paths_at(entries: Seq<LocalStorageEntry>, places: Seq<i32>) -> Seq<PathView>
    decreases places.len(),
{
    if places.len() == 0 {
        Seq::empty()
    } else {
        let before = paths_at(entries, places.drop_last());
        let place = places.last() as int;
        if 0 <= place < entries.len() {
            before.push(entries[place].path@)
        } else {
            before
        }
    }
}

/// How many of the places in the list are filled in.
pub open spec fn filled(places: Seq<i32>, count: isize) -> Seq<i32> {
    if count <= 0 {
        Seq::empty()
    } else if count >= places.len() {
        places
    } else {
        places.take(count as int)
    }
}

/// The paths of the entries that the user has selected, from their places in the
/// list and the number of places that are filled in.
pub fn selected_storage_paths(entries: &Vec<LocalStorageEntry>, places: &Vec<i32>, count: isize) -> (r:
    Vec<LocalPath>)
    ensures
        path_views(r@) == paths_at(entries@, filled(places@, count)),
{
    let ghost used = filled(places@, count);
    let limit: usize = if count <= 0 {
        0
    } else if count as usize >= places.len() {
        places.len()
    } else {
        count as usize
    };
    let mut paths: Vec<LocalPath> = Vec::new();
    let mut i: usize = 0;
    proof {
        assert(used.take(0) =~= Seq::empty());
        assert(path_views(paths@) =~= Seq::empty());
    }
    while i < limit
        invariant
            i <= limit <= places@.len(),
            used == filled(places@, count),
            used.len() == limit,
            forall|j: int| 0 <= j < limit ==> used[j] == places@[j],
            path_views(paths@) == paths_at(entries@, used.take(i as int)),
        decreases limit - i,
    {
        let place: i32 = places[i];
        let ghost before = path_views(paths@);
        proof {
            assert(used.take(i + 1).drop_last() =~= used.take(i as int));
            assert(used.take(i + 1).last() == place);
        }
        if place >= 0 {
            let at: usize = place as usize;
            if at < entries.len() {
                let path = entries[at].path.clone();
                paths.push(path);
                assert(path_views(paths@) =~= before.push(entries@[at as int].path@));
            }
        }
        i += 1;
    }
    assert(used.take(used.len() as int) =~= used);
    paths
}

/// Two paths have the same components.
pub open spec fn same_path(a: PathView, b: PathView) -> bool {
    a.components == b.components
}

/// How much the first entry of a path can give back: nothing if there is none.
pub open spec fn bytes_of_path(entries: Seq<LocalStorageEntry>, path: PathView) -> nat
    decreases entries.len(),
{
    if entries.len() == 0 {
        0
    } else if same_path(entries[0].path@, path) {
        entries[0].releasable_bytes as nat
    } else {
        bytes_of_path(entries.skip(1), path)
    }
}

/// How much the entries of some paths can give back.
pub open spec fn bytes_of_paths(entries: Seq<LocalStorageEntry>, paths: Seq<PathView>) -> nat
    decreases paths.len(),
{
    if paths.len() == 0 {
        0
    } else {
        bytes_of_paths(entries, paths.drop_last()) + bytes_of_path(entries, paths.last())
    }
}

proof fn lemma_bytes_grow(entries: Seq<LocalStorageEntry>, paths: Seq<PathView>, k: int)
    requires
        0 <= k <= paths.len(),
    ensures
        bytes_of_paths(entries, paths.take(k)) <= bytes_of_paths(entries, paths),
    decreases paths.len(),
{
    if k < paths.len() {
        lemma_bytes_grow(entries, paths.drop_last(), k);
        assert(paths.drop_last().take(k) =~= paths.take(k));
    } else {
        assert(paths.take(k) =~= paths);
    }
}

fn releasable_at(entries: &Vec<LocalStorageEntry>, path: &LocalPath) -> (r: u64)
    ensures
        r == bytes_of_path(entries@, path@),
{
    let mut i: usize = 0;
    assert(entries@.skip(0) =~= entries@);
    while i < entries.len()
        invariant
            i <= entries@.len(),
            bytes_of_path(entries@, path@) == bytes_of_path(entries@.skip(i as int), path@),
        decreases entries@.len() - i,
    {
        let entry = &entries[i];
        proof {
            assert(entries@.skip(i as int)[0] == *entry);
            assert(entries@.skip(i as int).skip(1) =~= entries@.skip(i + 1));
        }
        if entry.path.lies_within(path) && path.lies_within(&entry.path) {
            proof {
                let a = entry.path@.components;
                let b = path@.components;
                assert(a =~= b.subrange(0, a.len() as int));
                assert(b =~= a.subrange(0, b.len() as int));
                assert(a =~= b);
            }
            return entry.releasable_bytes;
        }
        proof {
            let a = entry.path@.components;
            let b = path@.components;
            if a == b {
                assert(a.subrange(0, a.len() as int) =~= a);
            }
        }
        i += 1;
    }
    0
}

/// How much the entries of the selected paths can give back, if it can be counted.
pub fn selected_bytes(entries: &Vec<LocalStorageEntry>, selected: &Vec<LocalPath>) -> (r: Option<
    u64,
>)
    ensures
        match r {
            Some(bytes) => bytes == bytes_of_paths(entries@, path_views(selected@)),
            None => bytes_of_paths(entries@, path_views(selected@)) > u64::MAX,
        },
{
    let ghost paths = path_views(selected@);
    let mut bytes: u64 = 0;
    let mut i: usize = 0;
    assert(paths.take(0) =~= Seq::empty());
    while i < selected.len()
        invariant
            i <= selected@.len(),
            paths == path_views(selected@),
            bytes == bytes_of_paths(entries@, paths.take(i as int)),
        decreases selected@.len() - i,
    {
        proof {
            assert(paths.take(i + 1).drop_last() =~= paths.take(i as int));
            assert(paths.take(i + 1).last() == selected@[i as int]@);
            lemma_bytes_grow(entries@, paths, i + 1);
        }
        match bytes.checked_add(releasable_at(entries, &selected[i])) {
            Some(sum) => {
                bytes = sum;
            },
            None => {
                return None;
            },
        }
        i += 1;
    }
    assert(paths.take(paths.len() as int) =~= paths);
    Some(bytes)
}

/// What the user is asked or told before the local space is given back.
#[derive(Debug)]
pub enum ReleasePrompt {
    /// There is nothing to give back.
    Tell(String),
    /// Whether to go on, and with what.
    Ask(String, StorageTask),
}

/// The question before the local space is given back.
pub open spec fn release_question(bytes: nat, count: nat) -> Seq<char> {
    "将释放 "@ + size_text(bytes) + " 本地空间（"@ + decimal(count)
        + " 个目录/文件）。\n\n文件仍会保留在夸克网盘和资源管理器中，再次打开时会按需下载。标记为“始终保留在此设备上”的文件不会被释放。"@
}

/// What the user is asked or told before the local space is given back.
pub fn release_prompt(selected: Vec<LocalPath>, bytes: u64) -> (r: ReleasePrompt)
    ensures
        if selected@.len() == 0 || bytes == 0 {
            r matches ReleasePrompt::Tell(text) && text@ == "当前没有可释放的本地网盘文件。"@
        } else {
            r matches ReleasePrompt::Ask(question, task) && {
                &&& question@ == release_question(bytes as nat, selected@.len())
                &&& task == (StorageTask::Release { selected, expected_bytes: bytes })
            }
        },
{
    if selected.len() == 0 || bytes == 0 {
        return ReleasePrompt::Tell("当前没有可释放的本地网盘文件。".to_owned());
    }
    let mut question = "将释放 ".to_owned();
    question.append(format_bytes(bytes).as_str());
    question.append(" 本地空间（");
    question.append(decimal_usize(selected.len()).as_str());
    question.append(
        " 个目录/文件）。\n\n文件仍会保留在夸克网盘和资源管理器中，再次打开时会按需下载。标记为“始终保留在此设备上”的文件不会被释放。",
    );
    ReleasePrompt::Ask(question, StorageTask::Release { selected, expected_bytes: bytes })
}

// ---------------------------------------------------------------------------
// Laws
// ---------------------------------------------------------------------------

/// The places of the whole list.
pub open spec fn every_place(entries: Seq<LocalStorageEntry>) -> Seq<i32> {
    Seq::new(entries.len(), |i: int| i as i32)
}

proof fn lemma_every_place(entries: Seq<LocalStorageEntry>, k: int)
    requires
        entries.len() <= i32::MAX,
        0 <= k <= entries.len(),
    ensures
        paths_at(entries, every_place(entries).take(k)) =~= Seq::new(
            k as nat,
            |i: int| entries[i].path@,
        ),
    decreases k,
{
    let places = every_place(entries).take(k);
    if k > 0 {
        lemma_every_place(entries, k - 1);
        assert(places.drop_last() =~= every_place(entries).take(k - 1));
        assert(places.last() == k - 1);
    }
}

/// Selecting every line selects every entry, in the order of the list.
pub proof fn law_selecting_all_selects_every_entry(entries: Seq<LocalStorageEntry>)
    requires
        entries.len() <= i32::MAX,
    ensures
        paths_at(entries, every_place(entries)) == Seq::new(
            entries.len(),
            |i: int| entries[i].path@,
        ),
{
    lemma_every_place(entries, entries.len() as int);
    assert(every_place(entries).take(entries.len() as int) =~= every_place(entries));
}

/// What two selections can give back is what each of them can, taken together.
pub proof fn law_selection_adds_up(
    entries: Seq<LocalStorageEntry>,
    paths: Seq<PathView>,
    more: Seq<PathView>,
)
    ensures
        bytes_of_paths(entries, paths + more) == bytes_of_paths(entries, paths) + bytes_of_paths(
            entries,
            more,
        ),
    decreases more.len(),
{
    if more.len() == 0 {
        assert(paths + more =~= paths);
    } else {
        law_selection_adds_up(entries, paths, more.drop_last());
        assert((paths + more).drop_last() =~= paths + more.drop_last());
        assert((paths + more).last() == more.last());
    }
}

} // verus!
