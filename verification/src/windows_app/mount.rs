//! Moving the mount to another directory. The old directory is deleted on the
//! way, so it is looked at closely before.

use crate::cloud_files::root::is_registered_sync_root_path;
use crate::path::{paths_equal, same_place, LocalPath, PathView};
use crate::text::{
    ascii_lower, chars_of, concat2, is_ascii_text, lowercase, same_chars, whole_string,
};
use vstd::prelude::*;

verus! {

// ---------------------------------------------------------------------------
// Directories in directories
// ---------------------------------------------------------------------------

/// The text with `\` for `/`.
pub open spec fn with_backslashes(s: Seq<char>) -> Seq<char> {
    s.map_values(
        |c: char|
            if c == '/' {
                '\\'
            } else {
                c
            },
    )
}

/// The text of a path in the form in which paths are compared: with backslashes,
/// and in lower case.
pub open spec fn folded(s: Seq<char>) -> Seq<char> {
    lowercase(with_backslashes(s))
}

/// The one path is the other, or is the start of it, up to a backslash.
pub open spec fn contains_folded(parent: Seq<char>, child: Seq<char>) -> bool {
    child == parent || (parent.is_prefix_of(child) && child.len() > parent.len()
        && child[parent.len() as int] == '\\')
}

fn backslashed(s: &str) -> (r: String)
    ensures
        r@ == with_backslashes(s@),
{
    let chars = chars_of(s);
    let mut out: Vec<char> = Vec::new();
    let mut i: usize = 0;
    while i < chars.len()
        invariant
            i <= chars@.len(),
            out@ == with_backslashes(chars@.take(i as int)),
        decreases chars@.len() - i,
    {
        let c = chars[i];
        out.push(
            if c == '/' {
                '\\'
            } else {
                c
            },
        );
        assert(out@ =~= with_backslashes(chars@.take(i + 1)));
        i += 1;
    }
    assert(chars@.take(chars@.len() as int) =~= chars@);
    whole_string(&out)
}

/// Whether the one folded path is the other, or contains it.
pub fn folded_contains(parent: &Vec<char>, child: &Vec<char>) -> (r: bool)
    ensures
        r == contains_folded(parent@, child@),
{
    if same_chars(parent, child) {
        return true;
    }
    if child.len() <= parent.len() {
        return false;
    }
    let mut i: usize = 0;
    while i < parent.len()
        invariant
            i <= parent@.len() < child@.len(),
            parent@ != child@,
            forall|j: int| 0 <= j < i ==> parent@[j] == child@[j],
        decreases parent@.len() - i,
    {
        if parent[i] != child[i] {
            assert(parent@[i as int] != child@.subrange(0, parent@.len() as int)[i as int]);
            return false;
        }
        i += 1;
    }
    assert(parent@ =~= child@.subrange(0, parent@.len() as int));
    child[parent.len()] == '\\'
}

/// Whether the one path is the other, or contains it, going by their texts.
pub fn is_ancestor_or_same(parent: &LocalPath, child: &LocalPath) -> (r: bool)
    ensures
        r == contains_folded(folded(parent@.text), folded(child@.text)),
        is_ascii_text(parent@.text) && is_ascii_text(child@.text) ==> r == contains_folded(
            ascii_lower(with_backslashes(parent@.text)),
            ascii_lower(with_backslashes(child@.text)),
        ),
{
    let parent = backslashed(parent.text.as_str());
    let parent = parent.as_str().to_lowercase();
    let child = backslashed(child.text.as_str());
    let child = child.as_str().to_lowercase();
    folded_contains(&chars_of(parent.as_str()), &chars_of(child.as_str()))
}

/// A path contains itself; what is contained in a contained path is contained;
/// and two paths that contain each other are one.
pub proof fn law_containment_is_an_order(a: Seq<char>, b: Seq<char>, c: Seq<char>)
    ensures
        contains_folded(a, a),
        contains_folded(a, b) && contains_folded(b, c) ==> contains_folded(a, c),
        contains_folded(a, b) && contains_folded(b, a) ==> a == b,
{
    if contains_folded(a, b) && contains_folded(b, c) && a != b && b != c {
        assert(a =~= c.subrange(0, a.len() as int)) by {
            assert forall|i: int| 0 <= i < a.len() implies a[i] == c[i] by {
                assert(a[i] == b.subrange(0, a.len() as int)[i]);
                assert(b[i] == c.subrange(0, b.len() as int)[i]);
            }
        }
        assert(b[a.len() as int] == c.subrange(0, b.len() as int)[a.len() as int]);
    }
}

/// The slashes of a path do not matter.
pub proof fn law_slashes_do_not_matter(s: Seq<char>)
    ensures
        folded(with_backslashes(s)) == folded(s),
{
    assert(with_backslashes(with_backslashes(s)) =~= with_backslashes(s));
}

// ---------------------------------------------------------------------------
// Directories that may be deleted
// ---------------------------------------------------------------------------

/// A directory that may be mounted to and deleted: it has a name, and it is none
/// of the user's own.
pub open spec fn safe_directory(path: PathView, protected: Seq<LocalPath>) -> bool {
    path.is_named_place() && forall|i: int|
        0 <= i < protected.len() ==> !same_place(path, (#[trigger] protected[i])@)
}

/// Whether a directory may be mounted to and deleted: it has a name, and it is
/// none of the user's own.
pub fn is_safe_mount_directory(path: &LocalPath, protected: &Vec<LocalPath>) -> (r: bool)
    ensures
        r == safe_directory(path@, protected@),
{
    if !path.is_named_place() {
        return false;
    }
    let mut i: usize = 0;
    while i < protected.len()
        invariant
            i <= protected@.len(),
            path@.is_named_place(),
            forall|j: int| 0 <= j < i ==> !same_place(path@, (#[trigger] protected@[j])@),
        decreases protected@.len() - i,
    {
        if paths_equal(path, &protected[i]) {
            return false;
        }
        i += 1;
    }
    true
}

/// What is at the place where the mount is to go.
#[derive(Debug)]
pub enum NewPlace {
    Absent,
    NotDirectory,
    /// A directory that could not be read, for this reason.
    Unreadable(String),
    Empty,
    Occupied,
}

/// Why the mount cannot be moved.
#[derive(Debug, PartialEq, Eq)]
pub enum MigrationError {
    /// One of the directories depends on a current directory.
    Relative,
    /// The old directory is not there.
    OldMissing(String),
    /// The old directory must not be deleted.
    OldUnsafe(String),
    /// The old directory is not the one that is registered.
    OldNotRegistered(String),
    /// One of the directories contains the other.
    Nested,
    /// There is something else than a directory at the new place.
    NewNotDirectory(String),
    /// The new directory could not be read.
    NewUnreadable(String),
    /// The new directory is not empty.
    NewOccupied(String),
}

impl MigrationError {
    /// The line that is shown to the user.
    pub open spec fn text(self) -> Seq<char> {
        match self {
            MigrationError::Relative => "挂载目录必须是绝对路径"@,
            MigrationError::OldMissing(path) => "旧挂载目录不存在："@ + path@,
            MigrationError::OldUnsafe(path) => "拒绝删除不安全的旧挂载目录："@ + path@,
            MigrationError::OldNotRegistered(path) =>
                "旧目录不是当前注册的夸克同步根，已阻止删除："@ + path@,
            MigrationError::Nested => "新旧挂载目录不能互相包含"@,
            MigrationError::NewNotDirectory(path) => "新挂载位置不是文件夹："@ + path@,
            MigrationError::NewUnreadable(reason) => reason@,
            MigrationError::NewOccupied(path) => "新挂载目录必须为空："@ + path@,
        }
    }

    /// The line that is shown to the user.
    pub fn message(&self) -> (r: String)
        ensures
            r@ == self.text(),
    {
        match self {
            MigrationError::Relative => "挂载目录必须是绝对路径".to_owned(),
            MigrationError::OldMissing(path) => concat2("旧挂载目录不存在：", path.as_str()),
            MigrationError::OldUnsafe(path) => concat2(
                "拒绝删除不安全的旧挂载目录：",
                path.as_str(),
            ),
            MigrationError::OldNotRegistered(path) => concat2(
                "旧目录不是当前注册的夸克同步根，已阻止删除：",
                path.as_str(),
            ),
            MigrationError::Nested => "新旧挂载目录不能互相包含".to_owned(),
            MigrationError::NewNotDirectory(path) => concat2(
                "新挂载位置不是文件夹：",
                path.as_str(),
            ),
            MigrationError::NewUnreadable(reason) => reason.clone(),
            MigrationError::NewOccupied(path) => concat2("新挂载目录必须为空：", path.as_str()),
        }
    }
}

/// What the file system and the explorer say of a move.
#[derive(Debug)]
pub struct MigrationFacts {
    /// Whether the old directory is there.
    pub old_is_directory: bool,
    /// The user's own directories.
    pub protected: Vec<LocalPath>,
    /// The path that the sync root is registered with.
    pub registered: Option<String>,
    pub new_place: NewPlace,
}

/// The path that a sync root is registered with is this one.
pub open spec fn is_registered(registered: Option<String>, path: PathView) -> bool {
    registered matches Some(root) && ascii_lower(root@) == ascii_lower(path.text)
}

/// One of the paths is the other, or contains it.
pub open spec fn nested(a: PathView, b: PathView) -> bool {
    contains_folded(folded(a.text), folded(b.text)) || contains_folded(
        folded(b.text),
        folded(a.text),
    )
}

/// What stands against moving the mount: the first obstacle, in this order.
pub open spec fn obstacle(old_path: LocalPath, new_path: LocalPath, facts: MigrationFacts) -> Option<
    MigrationError,
> {
    if !old_path.absolute || !new_path.absolute {
        Some(MigrationError::Relative)
    } else if !facts.old_is_directory {
        Some(MigrationError::OldMissing(old_path.text))
    } else if !safe_directory(old_path@, facts.protected@) {
        Some(MigrationError::OldUnsafe(old_path.text))
    } else if !is_registered(facts.registered, old_path@) {
        Some(MigrationError::OldNotRegistered(old_path.text))
    } else if nested(old_path@, new_path@) {
        Some(MigrationError::Nested)
    } else {
        match facts.new_place {
            NewPlace::NotDirectory => Some(MigrationError::NewNotDirectory(new_path.text)),
            NewPlace::Unreadable(reason) => Some(MigrationError::NewUnreadable(reason)),
            NewPlace::Occupied => Some(MigrationError::NewOccupied(new_path.text)),
            _ => None,
        }
    }
}

/// Checks that the mount can be moved: only then is the old directory deleted.
pub fn validate_mount_migration(
    old_path: &LocalPath,
    new_path: &LocalPath,
    facts: &MigrationFacts,
) -> (r: Result<(), MigrationError>)
    ensures
        match obstacle(*old_path, *new_path, *facts) {
            Some(e) => r == Err::<(), MigrationError>(e),
            None => r is Ok,
        },
{
    if !old_path.absolute || !new_path.absolute {
        return Err(MigrationError::Relative);
    }
    if !facts.old_is_directory {
        return Err(MigrationError::OldMissing(old_path.text.clone()));
    }
    if !is_safe_mount_directory(old_path, &facts.protected) {
        return Err(MigrationError::OldUnsafe(old_path.text.clone()));
    }
    if !is_registered_sync_root_path(&facts.registered, old_path) {
        return Err(MigrationError::OldNotRegistered(old_path.text.clone()));
    }
    if is_ancestor_or_same(old_path, new_path) || is_ancestor_or_same(new_path, old_path) {
        return Err(MigrationError::Nested);
    }
    match &facts.new_place {
        NewPlace::NotDirectory => Err(MigrationError::NewNotDirectory(new_path.text.clone())),
        NewPlace::Unreadable(reason) => Err(MigrationError::NewUnreadable(reason.clone())),
        NewPlace::Occupied => Err(MigrationError::NewOccupied(new_path.text.clone())),
        _ => Ok(()),
    }
}

/// A move that passes the check is one of the directory that is registered, and
/// none of the user's own, to a place that is empty; and neither directory holds
/// the other. Paths are compared by their texts here: a backslash at the end, or
/// a `..` in the middle, makes another text of the same place.
pub proof fn law_checked_move_by_texts(
    old_path: LocalPath,
    new_path: LocalPath,
    facts: MigrationFacts,
    own: int,
)
    requires
        obstacle(old_path, new_path, facts) is None,
        0 <= own < facts.protected@.len(),
    ensures
        is_registered(facts.registered, old_path@),
        !same_place(old_path@, facts.protected@[own]@),
        !contains_folded(folded(old_path@.text), folded(new_path@.text)),
        !contains_folded(folded(new_path@.text), folded(old_path@.text)),
        facts.new_place is Absent || facts.new_place is Empty,
{
}

/// A directory that is named as the old one is, but for the case of ASCII
/// letters, is no move.
pub fn mount_changed(old_path: &LocalPath, new_path: &LocalPath) -> (r: bool)
    ensures
        r == !same_place(old_path@, new_path@),
{
    !paths_equal(old_path, new_path)
}

// ---------------------------------------------------------------------------
// Deleting the old directory
// ---------------------------------------------------------------------------

/// How often the deletion of the old directory is tried.
pub const REMOVAL_ATTEMPTS: u32 = 4;

/// What moving the mount waits for.
#[derive(Clone, Copy, Debug, PartialEq, Eq, Structural)]
pub enum MigrateStage {
    /// That the old directory is no sync root any more.
    Unregistering,
    /// That the old directory is gone. So many attempts have failed.
    Removing { failures: u32 },
    /// That the directory above the new one is there.
    CreatingParent,
}

/// What to do next.
#[derive(Debug)]
pub enum MigrateNext {
    /// Wait that many milliseconds, then delete the old directory.
    Remove { failures: u32, pause_ms: u64 },
    /// Create the directory above the new one.
    CreateParent,
    /// The mount can be made at the new place.
    Done,
    /// Wait that many milliseconds; the mount cannot be moved.
    Failed { pause_ms: u64, reason: String },
}

/// A [`MigrateNext`] with its text as a sequence of characters.
pub enum MigrateView {
    Remove { failures: nat, pause_ms: nat },
    CreateParent,
    Done,
    Failed { pause_ms: nat, reason: Seq<char> },
}

impl View for MigrateNext {
    type V = MigrateView;

    open spec fn view(&self) -> MigrateView {
        match *self {
            MigrateNext::Remove { failures, pause_ms } => MigrateView::Remove {
                failures: failures as nat,
                pause_ms: pause_ms as nat,
            },
            MigrateNext::CreateParent => MigrateView::CreateParent,
            MigrateNext::Done => MigrateView::Done,
            MigrateNext::Failed { pause_ms, reason } => MigrateView::Failed {
                pause_ms: pause_ms as nat,
                reason: reason@,
            },
        }
    }
}

/// The line that is shown when the old directory could not be deleted.
pub open spec fn removal_failure(old_path: Seq<char>) -> Seq<char> {
    "无法删除旧挂载目录 "@ + old_path
}

/// What to do after a step of the move, by whether it succeeded. A deletion that
/// fails is tried again after a pause.
pub open spec fn migration_step(
    stage: MigrateStage,
    failure: Option<Seq<char>>,
    old_path: Seq<char>,
) -> MigrateView {
    match (stage, failure) {
        (MigrateStage::Unregistering, None) => MigrateView::Remove { failures: 0, pause_ms: 0 },
        (MigrateStage::Removing { .. }, None) => MigrateView::CreateParent,
        (MigrateStage::CreatingParent, None) => MigrateView::Done,
        (MigrateStage::Removing { failures }, Some(_)) => if failures + 1 < REMOVAL_ATTEMPTS {
            MigrateView::Remove { failures: (failures + 1) as nat, pause_ms: 250 }
        } else {
            MigrateView::Failed { pause_ms: 250, reason: removal_failure(old_path) }
        },
        (_, Some(reason)) => MigrateView::Failed { pause_ms: 0, reason },
    }
}

pub open spec fn failure_text(outcome: Result<(), String>) -> Option<Seq<char>> {
    match outcome {
        Ok(_) => None,
        Err(reason) => Some(reason@),
    }
}

/// What to do after a step of the move, by how it went.
pub fn migrate_mount_directory(
    stage: MigrateStage,
    outcome: Result<(), String>,
    old_path: &LocalPath,
) -> (r: MigrateNext)
    ensures
        r@ == migration_step(stage, failure_text(outcome), old_path.text@),
{
    match (stage, outcome) {
        (MigrateStage::Unregistering, Ok(_)) => MigrateNext::Remove { failures: 0, pause_ms: 0 },
        (MigrateStage::Removing { .. }, Ok(_)) => MigrateNext::CreateParent,
        (MigrateStage::CreatingParent, Ok(_)) => MigrateNext::Done,
        (MigrateStage::Removing { failures }, Err(_)) => {
            if failures < REMOVAL_ATTEMPTS - 1 {
                MigrateNext::Remove { failures: failures + 1, pause_ms: 250 }
            } else {
                MigrateNext::Failed {
                    pause_ms: 250,
                    reason: concat2("无法删除旧挂载目录 ", old_path.text.as_str()),
                }
            }
        },
        (_, Err(reason)) => MigrateNext::Failed { pause_ms: 0, reason },
    }
}

/// Whether the directory is gone in the end, given how each attempt would go
/// from the first that is still to come.
pub open spec fn removed_in_the_end(
    failures: u32,
    outcomes: spec_fn(int) -> Option<Seq<char>>,
    old_path: Seq<char>,
) -> bool
    decreases REMOVAL_ATTEMPTS - failures,
{
    match migration_step(
        MigrateStage::Removing { failures },
        outcomes(failures as int),
        old_path,
    ) {
        MigrateView::CreateParent => true,
        MigrateView::Remove { failures: more, .. } => removed_in_the_end(
            more as u32,
            outcomes,
            old_path,
        ),
        _ => false,
    }
}

/// The directory is gone in the end if one of the attempts, four at the most,
/// succeeds, and only then.
pub proof fn law_removal_is_tried_four_times(
    outcomes: spec_fn(int) -> Option<Seq<char>>,
    old_path: Seq<char>,
)
    ensures
        removed_in_the_end(0, outcomes, old_path) == (outcomes(0) is None || outcomes(1) is None
            || outcomes(2) is None || outcomes(3) is None),
{
    reveal_with_fuel(removed_in_the_end, 5);
}

/// As long as the old directory is a sync root, it is not deleted.
pub proof fn law_removal_follows_unregistering(
    stage: MigrateStage,
    failure: Option<Seq<char>>,
    old_path: Seq<char>,
)
    requires
        stage is Unregistering,
        migration_step(stage, failure, old_path) is Remove,
    ensures
        failure is None,
{
}

} // verus!
