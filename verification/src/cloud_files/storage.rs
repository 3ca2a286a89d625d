//! The space that the mount takes on the local disk, and how to get it back.

use super::error::CloudError;
use crate::path::{LocalPath, PathView};
use crate::text::texts;
use vstd::prelude::*;

verus! {

// ---------------------------------------------------------------------------
// What a walk through the mount directory finds
// ---------------------------------------------------------------------------

/// What is known of a placeholder.
#[derive(Clone, Copy, Debug, PartialEq, Eq, Structural)]
pub struct PlaceholderState {
    /// How many bytes of its contents are on the local disk.
    pub on_disk: i64,
    /// Whether the user wants to keep it on this device.
    pub pinned: bool,
}

/// A file of the mount directory.
#[derive(Debug)]
pub struct FoundFile {
    pub path: String,
    /// Its size, or why the size could not be read.
    pub length: Result<u64, String>,
    /// Its state as a placeholder, if it is one that could be read.
    pub placeholder: Option<PlaceholderState>,
}

/// A directory and what it holds, in the order in which the file system lists it.
#[derive(Debug)]
pub struct FoundDirectory {
    pub path: String,
    /// Its entries, unless it could not be opened.
    pub entries: Option<Vec<FoundEntry>>,
}

/// An entry of a directory.
#[derive(Debug)]
pub enum FoundEntry {
    Directory(FoundDirectory),
    File(FoundFile),
    /// Neither a directory nor a file.
    Other,
    /// An entry that could not be read, for this reason. The walk through its
    /// directory ends there.
    Failed(String),
}

impl PlaceholderState {
    /// How many bytes of the contents are on the local disk.
    pub open spec fn local(self) -> nat {
        if self.on_disk > 0 {
            self.on_disk as nat
        } else {
            0
        }
    }

    /// Whether the local copy of the contents may be given up.
    pub open spec fn is_releasable(self) -> bool {
        !self.pinned && self.on_disk > 0
    }

    /// Whether the local copy of the contents may be given up: there is one, and
    /// the user did not ask to keep it.
    pub fn releasable(&self) -> (r: bool)
        ensures
            r == self.is_releasable(),
    {
        !self.pinned && self.on_disk > 0
    }
}

impl FoundFile {
    /// The walk ends at a file whose size is wanted and cannot be read.
    pub open spec fn stops(self, measuring: bool) -> bool {
        measuring && self.length is Err
    }
}

/// The files that a walk through some entries comes to, in order. Directories
/// that cannot be walked to their end are left where they fail, and the walk
/// goes on behind them.
pub open spec fn reached(entries: Seq<FoundEntry>, measuring: bool) -> Seq<FoundFile>
    decreases entries,
{
    if entries.len() == 0 {
        Seq::empty()
    } else {
        match entries[0] {
            FoundEntry::Directory(directory) => reached_in(directory, measuring) + reached(
                entries.skip(1),
                measuring,
            ),
            FoundEntry::File(file) => if file.stops(measuring) {
                seq![file]
            } else {
                seq![file] + reached(entries.skip(1), measuring)
            },
            FoundEntry::Other => reached(entries.skip(1), measuring),
            FoundEntry::Failed(_) => Seq::empty(),
        }
    }
}

/// The files that a walk through a directory comes to, in order.
pub open spec fn reached_in(directory: FoundDirectory, measuring: bool) -> Seq<FoundFile>
    decreases directory,
{
    match directory.entries {
        Some(entries) => reached(entries@, measuring),
        None => Seq::empty(),
    }
}

/// Why the walk through some entries ends before the last of them. What happens
/// in a directory among them does not count.
pub open spec fn interruption(entries: Seq<FoundEntry>, measuring: bool) -> Option<CloudError>
    decreases entries.len(),
{
    if entries.len() == 0 {
        None
    } else {
        match entries[0] {
            FoundEntry::File(file) => if file.stops(measuring) {
                Some(CloudError::Unreadable(file.length->Err_0))
            } else {
                interruption(entries.skip(1), measuring)
            },
            FoundEntry::Failed(reason) => Some(CloudError::Unreadable(reason)),
            _ => interruption(entries.skip(1), measuring),
        }
    }
}

/// Why the walk through a directory does not come to its end.
pub open spec fn interruption_in(directory: FoundDirectory, measuring: bool) -> Option<CloudError> {
    match directory.entries {
        Some(entries) => interruption(entries@, measuring),
        None => Some(CloudError::Unscannable(directory.path)),
    }
}

// ---------------------------------------------------------------------------
// Counting
// ---------------------------------------------------------------------------

/// What the files of the mount take, in the cloud and on the local disk.
#[derive(Clone, Copy, Debug, PartialEq, Eq, Structural)]
pub struct LocalStorageStats {
    /// The size of the files.
    pub logical_bytes: u64,
    /// How much of their contents is on the local disk.
    pub local_bytes: u64,
    /// How much of that may be given up.
    pub releasable_bytes: u64,
    /// How many files there are.
    pub file_count: u64,
    /// How many of them have something to give up.
    pub releasable_files: u64,
    /// How many of them are no placeholders, or could not be asked.
    pub skipped_files: u64,
}

impl Default for LocalStorageStats {
    fn default() -> (r: LocalStorageStats)
        ensures
            r == nothing(),
    {
        LocalStorageStats {
            logical_bytes: 0,
            local_bytes: 0,
            releasable_bytes: 0,
            file_count: 0,
            releasable_files: 0,
            skipped_files: 0,
        }
    }
}

/// The count before anything was counted.
pub open spec fn nothing() -> LocalStorageStats {
    LocalStorageStats {
        logical_bytes: 0,
        local_bytes: 0,
        releasable_bytes: 0,
        file_count: 0,
        releasable_files: 0,
        skipped_files: 0,
    }
}

/// `n`, or the largest number that fits.
pub open spec fn capped(n: nat) -> u64 {
    if n <= u64::MAX {
        n as u64
    } else {
        u64::MAX
    }
}

impl FoundFile {
    pub open spec fn logical(self) -> nat {
        match self.length {
            Ok(length) => length as nat,
            Err(_) => 0,
        }
    }

    pub open spec fn local(self) -> nat {
        match (self.length, self.placeholder) {
            (Ok(_), Some(state)) => state.local(),
            _ => 0,
        }
    }

    pub open spec fn gives_up(self) -> bool {
        self.length is Ok && (self.placeholder matches Some(state) && state.is_releasable())
    }

    pub open spec fn releasable(self) -> nat {
        if self.gives_up() {
            self.local()
        } else {
            0
        }
    }

    pub open spec fn is_skipped(self) -> bool {
        self.length is Ok && self.placeholder is None
    }
}

pub open spec fn logical_total(files: Seq<FoundFile>) -> nat
    decreases files.len(),
{
    if files.len() == 0 {
        0
    } else {
        logical_total(files.drop_last()) + files.last().logical()
    }
}

pub open spec fn local_total(files: Seq<FoundFile>) -> nat
    decreases files.len(),
{
    if files.len() == 0 {
        0
    } else {
        local_total(files.drop_last()) + files.last().local()
    }
}

pub open spec fn releasable_total(files: Seq<FoundFile>) -> nat
    decreases files.len(),
{
    if files.len() == 0 {
        0
    } else {
        releasable_total(files.drop_last()) + files.last().releasable()
    }
}

pub open spec fn releasable_count(files: Seq<FoundFile>) -> nat
    decreases files.len(),
{
    if files.len() == 0 {
        0
    } else {
        releasable_count(files.drop_last()) + (if files.last().gives_up() {
            1nat
        } else {
            0nat
        })
    }
}

pub open spec fn skipped_count(files: Seq<FoundFile>) -> nat
    decreases files.len(),
{
    if files.len() == 0 {
        0
    } else {
        skipped_count(files.drop_last()) + (if files.last().is_skipped() {
            1nat
        } else {
            0nat
        })
    }
}

impl LocalStorageStats {
    /// The count of some files on top of this one.
    pub open spec fn plus(self, files: Seq<FoundFile>) -> LocalStorageStats {
        LocalStorageStats {
            logical_bytes: capped(self.logical_bytes as nat + logical_total(files)),
            local_bytes: capped(self.local_bytes as nat + local_total(files)),
            releasable_bytes: capped(self.releasable_bytes as nat + releasable_total(files)),
            file_count: capped(self.file_count as nat + files.len()),
            releasable_files: capped(self.releasable_files as nat + releasable_count(files)),
            skipped_files: capped(self.skipped_files as nat + skipped_count(files)),
        }
    }

    /// Files are counted once: as giving something up, as skipped, or as neither.
    /// Nothing can be given up that is not there.
    pub open spec fn wf(self) -> bool {
        &&& self.releasable_bytes <= self.local_bytes
        &&& self.releasable_files + self.skipped_files <= self.file_count
    }
}

proof fn lemma_counts_fit(files: Seq<FoundFile>)
    ensures
        releasable_count(files) + skipped_count(files) <= files.len(),
        releasable_total(files) <= local_total(files),
    decreases files.len(),
{
    if files.len() > 0 {
        lemma_counts_fit(files.drop_last());
    }
}

impl LocalStorageStats {
    /// No number is smaller than in another count.
    pub open spec fn at_least(self, other: LocalStorageStats) -> bool {
        &&& self.logical_bytes >= other.logical_bytes
        &&& self.local_bytes >= other.local_bytes
        &&& self.releasable_bytes >= other.releasable_bytes
        &&& self.file_count >= other.file_count
        &&& self.releasable_files >= other.releasable_files
        &&& self.skipped_files >= other.skipped_files
    }
}

/// Whatever is counted, no number gets smaller, and nothing can be given up that
/// is not there.
pub proof fn law_counts_only_grow(stats: LocalStorageStats, files: Seq<FoundFile>)
    requires
        stats.releasable_bytes <= stats.local_bytes,
    ensures
        stats.plus(files).at_least(stats),
        stats.plus(files).releasable_bytes <= stats.plus(files).local_bytes,
{
    lemma_counts_fit(files);
}

/// A well-formed count stays well-formed, whatever is counted on top of it, as
/// long as the number of files fits.
pub proof fn law_counts_stay_consistent(stats: LocalStorageStats, files: Seq<FoundFile>)
    requires
        stats.wf(),
        stats.file_count + files.len() <= u64::MAX,
    ensures
        stats.plus(files).wf(),
        stats.plus(files).at_least(stats),
        stats.plus(files).file_count == stats.file_count + files.len(),
{
    lemma_counts_fit(files);
}

/// It does not matter whether files are counted in one go or in two.
pub proof fn law_counting_in_parts(stats: LocalStorageStats, a: Seq<FoundFile>, b: Seq<FoundFile>)
    ensures
        stats.plus(a).plus(b) == stats.plus(a + b),
    decreases b.len(),
{
    if b.len() == 0 {
        assert(a + b =~= a);
    } else {
        law_counting_in_parts(stats, a, b.drop_last());
        assert((a + b).drop_last() =~= a + b.drop_last());
        assert((a + b).last() == b.last());
    }
}

proof fn lemma_single(file: FoundFile)
    ensures
        ({
            let one = seq![file];
            &&& logical_total(one) == file.logical()
            &&& local_total(one) == file.local()
            &&& releasable_total(one) == file.releasable()
            &&& releasable_count(one) == (if file.gives_up() {
                1nat
            } else {
                0nat
            })
            &&& skipped_count(one) == (if file.is_skipped() {
                1nat
            } else {
                0nat
            })
        }),
{
    let one = seq![file];
    assert(one.drop_last() =~= Seq::empty());
    reveal_with_fuel(logical_total, 2);
    reveal_with_fuel(local_total, 2);
    reveal_with_fuel(releasable_total, 2);
    reveal_with_fuel(releasable_count, 2);
    reveal_with_fuel(skipped_count, 2);
}

impl LocalStorageStats {
    /// Counts one file.
    pub fn record(&mut self, file: &FoundFile)
        requires
            old(self).wf(),
            old(self).file_count < u64::MAX,
        ensures
            *final(self) == old(self).plus(seq![*file]),
            final(self).wf(),
    {
        proof {
            lemma_single(*file);
        }
        self.file_count += 1;
        if let Ok(length) = &file.length {
            self.logical_bytes = self.logical_bytes.saturating_add(*length);
            match &file.placeholder {
                Some(state) => {
                    let on_disk: u64 = if state.on_disk > 0 {
                        state.on_disk as u64
                    } else {
                        0
                    };
                    self.local_bytes = self.local_bytes.saturating_add(on_disk);
                    if state.releasable() {
                        self.releasable_bytes = self.releasable_bytes.saturating_add(on_disk);
                        self.releasable_files += 1;
                    }
                },
                None => {
                    self.skipped_files += 1;
                },
            }
        }
    }
}

proof fn lemma_rest_of_entries(entries: Seq<FoundEntry>, i: int)
    requires
        0 <= i < entries.len(),
    ensures
        entries.skip(i)[0] == entries[i],
        entries.skip(i).skip(1) == entries.skip(i + 1),
{
    assert(entries.skip(i).skip(1) =~= entries.skip(i + 1));
}

/// Counts the files that a walk through a directory comes to.
pub fn scan_directory(directory: &FoundDirectory, stats: &mut LocalStorageStats) -> (r: Result<
    (),
    CloudError,
>)
    requires
        old(stats).wf(),
        old(stats).file_count + reached_in(*directory, true).len() <= u64::MAX,
    ensures
        *final(stats) == old(stats).plus(reached_in(*directory, true)),
        final(stats).wf(),
        final(stats).at_least(*old(stats)),
        match interruption_in(*directory, true) {
            Some(e) => r == Err::<(), CloudError>(e),
            None => r is Ok,
        },
    decreases directory,
{
    let entries = match &directory.entries {
        Some(entries) => entries,
        None => {
            return Err(CloudError::Unscannable(directory.path.clone()));
        },
    };
    let ghost start = *stats;
    let ghost all = reached_in(*directory, true);
    let ghost mut done: Seq<FoundFile> = Seq::empty();
    let mut i: usize = 0;
    proof {
        assert(entries@.skip(0) =~= entries@);
        assert(done + reached(entries@, true) =~= all);
    }
    while i < entries.len()
        invariant
            i <= entries@.len(),
            directory.entries == Some(*entries),
            start == *old(stats),
            start.wf(),
            start.file_count + all.len() <= u64::MAX,
            all == done + reached(entries@.skip(i as int), true),
            interruption_in(*directory, true) == interruption(entries@.skip(i as int), true),
            all == reached_in(*directory, true),
            *stats == start.plus(done),
            stats.wf(),
        decreases entries@.len() - i,
    {
        proof {
            lemma_rest_of_entries(entries@, i as int);
            law_counts_stay_consistent(start, done);
        }
        let ghost rest = reached(entries@.skip(i + 1), true);
        match &entries[i] {
            FoundEntry::Directory(inner) => {
                let ghost found = reached_in(*inner, true);
                assert(all =~= done + found + rest);
                let _ = scan_directory(inner, stats);
                proof {
                    law_counting_in_parts(start, done, found);
                    done = done + found;
                }
            },
            FoundEntry::File(file) => {
                let ghost found = seq![*file];
                assert(all.len() >= done.len() + 1);
                stats.record(file);
                proof {
                    law_counting_in_parts(start, done, found);
                }
                if let Err(reason) = &file.length {
                    assert(all =~= done + found);
                    return Err(CloudError::Unreadable(reason.clone()));
                }
                proof {
                    assert(all =~= done + found + rest);
                    done = done + found;
                }
            },
            FoundEntry::Other => {},
            FoundEntry::Failed(reason) => {
                assert(all =~= done);
                return Err(CloudError::Unreadable(reason.clone()));
            },
        }
        i += 1;
    }
    assert(all =~= done);
    Ok(())
}

/// Measures the size of the files in the mount directory, and how much of their
/// contents is on the local disk.
pub fn scan_local_storage(root: &FoundDirectory) -> (r: Result<LocalStorageStats, CloudError>)
    requires
        reached_in(*root, true).len() <= u64::MAX,
    ensures
        match interruption_in(*root, true) {
            Some(e) => r == Err::<LocalStorageStats, CloudError>(e),
            None => r == Ok::<LocalStorageStats, CloudError>(
                nothing().plus(reached_in(*root, true)),
            ),
        },
{
    let mut stats = LocalStorageStats::default();
    match scan_directory(root, &mut stats) {
        Ok(_) => Ok(stats),
        Err(e) => Err(e),
    }
}

// ---------------------------------------------------------------------------
// Releasing
// ---------------------------------------------------------------------------

/// Whether the local copy of a file may be given up. Files that are no
/// placeholders are never touched.
pub open spec fn to_release(file: FoundFile) -> bool {
    file.placeholder matches Some(state) && state.is_releasable()
}

/// The paths of the files whose local copies may be given up.
pub open spec fn release_paths(files: Seq<FoundFile>) -> Seq<Seq<char>>
    decreases files.len(),
{
    if files.len() == 0 {
        Seq::empty()
    } else {
        let before = release_paths(files.drop_last());
        if to_release(files.last()) {
            before.push(files.last().path@)
        } else {
            before
        }
    }
}

/// Whether to give up the local copy of a file whose state as a placeholder is
/// known.
pub fn release_file(placeholder: &Option<PlaceholderState>) -> (r: bool)
    ensures
        r == (*placeholder matches Some(state) && state.is_releasable()),
{
    match placeholder {
        Some(state) => state.releasable(),
        None => false,
    }
}

/// Checks that a file lies below the mount directory. A path that leads out of it
/// through `..` does not, unless it comes back.
pub fn check_target(root: &LocalPath, target: &LocalPath) -> (r: Result<(), CloudError>)
    ensures
        r == (if target@.descends(root@) {
            Ok::<(), CloudError>(())
        } else {
            Err::<(), CloudError>(CloudError::OutsideMount)
        }),
{
    if target.descends(root) {
        Ok(())
    } else {
        Err(CloudError::OutsideMount)
    }
}

/// Whether to give up the local copy of one file. It must lie below the mount
/// directory.
pub fn release_local_file(
    root: &LocalPath,
    target: &LocalPath,
    placeholder: &Option<PlaceholderState>,
) -> (r: Result<bool, CloudError>)
    ensures
        r == (if target@.descends(root@) {
            Ok::<bool, CloudError>(*placeholder matches Some(state) && state.is_releasable())
        } else {
            Err::<bool, CloudError>(CloudError::OutsideMount)
        }),
{
    match check_target(root, target) {
        Ok(_) => Ok(release_file(placeholder)),
        Err(e) => Err(e),
    }
}

pub(crate) proof fn lemma_release_paths_append(a: Seq<FoundFile>, b: Seq<FoundFile>)
    ensures
        release_paths(a + b) == release_paths(a) + release_paths(b),
    decreases b.len(),
{
    if b.len() == 0 {
        assert(a + b =~= a);
        assert(release_paths(a) + release_paths(b) =~= release_paths(a));
    } else {
        lemma_release_paths_append(a, b.drop_last());
        assert((a + b).drop_last() =~= a + b.drop_last());
        assert((a + b).last() == b.last());
        assert(release_paths(a + b) =~= release_paths(a) + release_paths(b));
    }
}

pub(crate) proof fn lemma_release_one(file: FoundFile)
    ensures
        release_paths(seq![file]) == (if to_release(file) {
            seq![file.path@]
        } else {
            Seq::empty()
        }),
{
    let one = seq![file];
    assert(one.drop_last() =~= Seq::empty());
    reveal_with_fuel(release_paths, 2);
    if to_release(file) {
        assert(release_paths(one) =~= seq![file.path@]);
    }
}

/// Collects the paths of the files in a directory whose local copies may be
/// given up.
pub fn release_directory(directory: &FoundDirectory, paths: &mut Vec<String>) -> (r: Result<
    (),
    CloudError,
>)
    ensures
        texts(final(paths)@) == texts(old(paths)@) + release_paths(reached_in(*directory, false)),
        match interruption_in(*directory, false) {
            Some(e) => r == Err::<(), CloudError>(e),
            None => r is Ok,
        },
    decreases directory,
{
    let entries = match &directory.entries {
        Some(entries) => entries,
        None => {
            assert(release_paths(reached_in(*directory, false)) =~= Seq::empty());
            assert(texts(paths@) + Seq::<Seq<char>>::empty() =~= texts(paths@));
            return Err(CloudError::Unscannable(directory.path.clone()));
        },
    };
    let ghost start = texts(paths@);
    let ghost all = reached_in(*directory, false);
    let ghost mut done: Seq<FoundFile> = Seq::empty();
    let mut i: usize = 0;
    proof {
        assert(entries@.skip(0) =~= entries@);
        assert(done + reached(entries@, false) =~= all);
        assert(start + release_paths(done) =~= start);
    }
    while i < entries.len()
        invariant
            i <= entries@.len(),
            directory.entries == Some(*entries),
            start == texts(old(paths)@),
            all == reached_in(*directory, false),
            all == done + reached(entries@.skip(i as int), false),
            interruption_in(*directory, false) == interruption(entries@.skip(i as int), false),
            texts(paths@) == start + release_paths(done),
        decreases entries@.len() - i,
    {
        proof {
            lemma_rest_of_entries(entries@, i as int);
        }
        let ghost rest = reached(entries@.skip(i + 1), false);
        match &entries[i] {
            FoundEntry::Directory(inner) => {
                let ghost found = reached_in(*inner, false);
                let _ = release_directory(inner, paths);
                proof {
                    lemma_release_paths_append(done, found);
                    assert(texts(paths@) =~= start + release_paths(done + found));
                    assert(all =~= done + found + rest);
                    done = done + found;
                }
            },
            FoundEntry::File(file) => {
                let ghost found = seq![*file];
                let ghost before = texts(paths@);
                if release_file(&file.placeholder) {
                    paths.push(file.path.clone());
                    assert(texts(paths@) =~= before.push(file.path@));
                }
                proof {
                    lemma_release_one(*file);
                    lemma_release_paths_append(done, found);
                    assert(texts(paths@) =~= start + release_paths(done + found));
                    assert(all =~= done + found + rest);
                    done = done + found;
                }
            },
            FoundEntry::Other => {},
            FoundEntry::Failed(reason) => {
                assert(all =~= done);
                return Err(CloudError::Unreadable(reason.clone()));
            },
        }
        i += 1;
    }
    assert(all =~= done);
    Ok(())
}

/// The files of the mount directory whose local copies are to be given up, and
/// what kept the walk from coming to its end. What was found until then is
/// given up all the same.
pub fn release_local_storage(root: &FoundDirectory) -> (r: (Vec<String>, Result<(), CloudError>))
    ensures
        texts(r.0@) == release_paths(reached_in(*root, false)),
        match interruption_in(*root, false) {
            Some(e) => r.1 == Err::<(), CloudError>(e),
            None => r.1 is Ok,
        },
{
    let mut paths: Vec<String> = Vec::new();
    let ended = release_directory(root, &mut paths);
    assert(texts(Seq::<String>::empty()) + release_paths(reached_in(*root, false))
        =~= release_paths(reached_in(*root, false)));
    (paths, ended)
}

// ---------------------------------------------------------------------------
// By the directories and files at the top of the mount
// ---------------------------------------------------------------------------

/// A directory or file of the mount that takes local space.
#[derive(Debug)]
pub struct LocalStorageEntry {
    pub path: LocalPath,
    pub releasable_bytes: u64,
    pub file_count: u64,
}

/// A [`LocalStorageEntry`] with its path as a mathematical value.
pub struct EntryView {
    pub path: PathView,
    pub releasable_bytes: u64,
    pub file_count: u64,
}

impl View for LocalStorageEntry {
    type V = EntryView;

    open spec fn view(&self) -> EntryView {
        EntryView {
            path: self.path@,
            releasable_bytes: self.releasable_bytes,
            file_count: self.file_count,
        }
    }
}

/// The views of some entries.
pub open spec fn entry_views(entries: Seq<LocalStorageEntry>) -> Seq<EntryView> {
    entries.map_values(|e: LocalStorageEntry| e@)
}

/// A directory or file at the top of the mount.
#[derive(Debug)]
pub struct FoundChild {
    pub path: LocalPath,
    pub entry: FoundEntry,
}

/// What one entry takes.
pub open spec fn taken_by(entry: FoundEntry) -> LocalStorageStats {
    nothing().plus(reached(seq![entry], true))
}

/// Those of the entries that have something to give up: how much, and how many
/// files it is in.
pub open spec fn giving_entries(children: Seq<FoundChild>) -> Seq<EntryView>
    decreases children.len(),
{
    if children.len() == 0 {
        Seq::empty()
    } else {
        let before = giving_entries(children.drop_last());
        let stats = taken_by(children.last().entry);
        if stats.releasable_bytes > 0 {
            before.push(
                EntryView {
                    path: children.last().path@,
                    releasable_bytes: stats.releasable_bytes,
                    file_count: stats.releasable_files,
                },
            )
        } else {
            before
        }
    }
}

proof fn lemma_reached_single(entry: FoundEntry, measuring: bool)
    ensures
        reached(seq![entry], measuring) == (match entry {
            FoundEntry::Directory(directory) => reached_in(directory, measuring),
            FoundEntry::File(file) => seq![file],
            _ => Seq::empty(),
        }),
{
    let one = seq![entry];
    assert(one.skip(1) =~= Seq::empty());
    assert(reached(one.skip(1), measuring) =~= Seq::empty());
    assert(reached(one, measuring) =~= match entry {
        FoundEntry::Directory(directory) => reached_in(directory, measuring),
        FoundEntry::File(file) => seq![file],
        _ => Seq::empty(),
    });
}

fn measure(entry: &FoundEntry) -> (r: LocalStorageStats)
    requires
        reached(seq![*entry], true).len() <= u64::MAX,
    ensures
        r == taken_by(*entry),
{
    proof {
        lemma_reached_single(*entry, true);
    }
    let mut stats = LocalStorageStats::default();
    match entry {
        FoundEntry::Directory(directory) => {
            let _ = scan_directory(directory, &mut stats);
        },
        FoundEntry::File(file) => {
            stats.record(file);
        },
        _ => {},
    }
    stats
}

/// Measures the local space by the directories and files at the top of the mount,
/// and lists those that have something to give up, in their order.
pub fn scan_local_storage_entries(children: &Vec<FoundChild>) -> (r: Vec<LocalStorageEntry>)
    requires
        forall|i: int|
            0 <= i < children@.len() ==> reached(
                seq![(#[trigger] children@[i]).entry],
                true,
            ).len() <= u64::MAX,
    ensures
        entry_views(r@) == giving_entries(children@),
{
    let mut entries: Vec<LocalStorageEntry> = Vec::new();
    let mut i: usize = 0;
    proof {
        assert(children@.take(0) =~= Seq::empty());
        assert(entry_views(entries@) =~= Seq::empty());
    }
    while i < children.len()
        invariant
            i <= children@.len(),
            forall|k: int|
                0 <= k < children@.len() ==> reached(
                    seq![(#[trigger] children@[k]).entry],
                    true,
                ).len() <= u64::MAX,
            entry_views(entries@) == giving_entries(children@.take(i as int)),
        decreases children@.len() - i,
    {
        let child = &children[i];
        let ghost before = entry_views(entries@);
        proof {
            assert(children@.take(i + 1).drop_last() =~= children@.take(i as int));
            assert(children@.take(i + 1).last() == *child);
        }
        let stats = measure(&child.entry);
        if stats.releasable_bytes > 0 {
            entries.push(
                LocalStorageEntry {
                    path: child.path.clone(),
                    releasable_bytes: stats.releasable_bytes,
                    file_count: stats.releasable_files,
                },
            );
            assert(entry_views(entries@) =~= before.push(entries@.last()@));
        }
        i += 1;
    }
    assert(children@.take(children@.len() as int) =~= children@);
    entries
}

/// The files that walks through several entries come to, each on its own.
pub open spec fn reached_each(entries: Seq<FoundEntry>) -> Seq<FoundFile>
    decreases entries.len(),
{
    if entries.len() == 0 {
        Seq::empty()
    } else {
        reached_each(entries.drop_last()) + reached(seq![entries.last()], false)
    }
}

/// The files in the selected directories and files whose local copies are to be
/// given up.
pub fn release_local_paths(selected: &Vec<FoundEntry>) -> (r: Vec<String>)
    ensures
        texts(r@) == release_paths(reached_each(selected@)),
{
    let mut paths: Vec<String> = Vec::new();
    let mut i: usize = 0;
    proof {
        assert(selected@.take(0) =~= Seq::empty());
        assert(texts(paths@) =~= Seq::empty());
    }
    while i < selected.len()
        invariant
            i <= selected@.len(),
            texts(paths@) == release_paths(reached_each(selected@.take(i as int))),
        decreases selected@.len() - i,
    {
        let ghost before = texts(paths@);
        proof {
            assert(selected@.take(i + 1).drop_last() =~= selected@.take(i as int));
            assert(selected@.take(i + 1).last() == selected@[i as int]);
            lemma_reached_single(selected@[i as int], false);
            lemma_release_paths_append(
                reached_each(selected@.take(i as int)),
                reached(seq![selected@[i as int]], false),
            );
        }
        match &selected[i] {
            FoundEntry::Directory(directory) => {
                let _ = release_directory(directory, &mut paths);
            },
            FoundEntry::File(file) => {
                proof {
                    lemma_release_one(*file);
                }
                if release_file(&file.placeholder) {
                    paths.push(file.path.clone());
                    assert(texts(paths@) =~= before.push(file.path@));
                }
            },
            _ => {},
        }
        assert(texts(paths@) =~= release_paths(reached_each(selected@.take(i + 1))));
        i += 1;
    }
    assert(selected@.take(selected@.len() as int) =~= selected@);
    paths
}

// ---------------------------------------------------------------------------
// What releasing brings
// ---------------------------------------------------------------------------

/// A file after its local copy was given up, if it may be: the rest of it is as
/// before.
pub open spec fn released(file: FoundFile) -> FoundFile {
    match file.placeholder {
        Some(state) => if state.is_releasable() {
            FoundFile { placeholder: Some(PlaceholderState { on_disk: 0, ..state }), ..file }
        } else {
            file
        },
        None => file,
    }
}

/// After every file that may be released has been released, nothing releasable
/// is left, and the local disk holds as much less as was releasable. The files,
/// their sizes and what is pinned are as before.
pub proof fn law_release_frees_what_was_counted(files: Seq<FoundFile>)
    ensures
        ({
            let after = files.map_values(|f: FoundFile| released(f));
            &&& releasable_total(after) == 0
            &&& releasable_count(after) == 0
            &&& local_total(after) == local_total(files) - releasable_total(files)
            &&& logical_total(after) == logical_total(files)
            &&& skipped_count(after) == skipped_count(files)
            &&& after.len() == files.len()
        }),
    decreases files.len(),
{
    let after = files.map_values(|f: FoundFile| released(f));
    if files.len() > 0 {
        law_release_frees_what_was_counted(files.drop_last());
        assert(after.drop_last() =~= files.drop_last().map_values(|f: FoundFile| released(f)));
        assert(after.last() == released(files.last()));
    }
}

/// The files that are released are those that were counted as releasable, one
/// path for each, wherever the sizes of all files can be read.
pub proof fn law_release_matches_count(files: Seq<FoundFile>)
    requires
        forall|i: int| 0 <= i < files.len() ==> (#[trigger] files[i]).length is Ok,
    ensures
        release_paths(files).len() == releasable_count(files),
    decreases files.len(),
{
    if files.len() > 0 {
        assert forall|i: int| 0 <= i < files.drop_last().len() implies (
        #[trigger] files.drop_last()[i]).length is Ok by {
            assert(files.drop_last()[i] == files[i]);
        }
        law_release_matches_count(files.drop_last());
    }
}

/// A file that the user keeps on the device, or that is no placeholder, is never
/// among those that are released.
pub proof fn law_kept_files_are_not_released(files: Seq<FoundFile>, path: Seq<char>)
    requires
        forall|i: int|
            0 <= i < files.len() && (#[trigger] files[i]).path@ == path ==> (
            files[i].placeholder matches Some(state) ==> state.pinned),
    ensures
        !release_paths(files).contains(path),
    decreases files.len(),
{
    if files.len() > 0 {
        let init = files.drop_last();
        assert forall|i: int|
            0 <= i < init.len() && (#[trigger] init[i]).path@ == path implies (
        init[i].placeholder matches Some(state) ==> state.pinned) by {
            assert(init[i] == files[i]);
        }
        law_kept_files_are_not_released(init, path);
        assert(files.last() == files[files.len() - 1]);
    }
}

} // verus!
