//! What the settings window shows and does, seen from outside.

use super::command::{cancels_login, handle_command, AppCommand};
use super::layout::{
    control_views, create_controls, create_qr_controls, set_tab, settings_layout, Control, Role,
};
use super::mount::{
    contains_folded, is_ancestor_or_same, is_safe_mount_directory, migrate_mount_directory,
    mount_changed,
    validate_mount_migration, with_backslashes, MigrateNext, MigrateStage, MigrationError,
    MigrationFacts,
};
use super::qr_view::{
    dark_places, law_modules_stay_in_the_area, module_place, module_size, modules_across, paint_qr,
    Rectangle,
};
use super::save_run::{begin_saving, SaveAction, SaveEvent, SaveNext, SaveStage};
use super::settings::{
    account_detail, account_text, apply_settings, config_needs_login, directories, finish_login,
    has_root, load_remote_roots, root_labels, root_position, save_and_restart, selected_root, startup_command,
    whole_drive, SaveStep, SettingsError,
};
use super::size::{
    format_bytes, law_rounding_is_nearest, rounded, unit_for, unit_name, unit_size,
};
use super::storage_view::{
    bytes_of_path, filled, finish_storage_task, path_views, release_prompt, selected_bytes,
    selected_storage_paths, storage_label, ReleasePrompt, StorageReport, StorageTask,
};
use crate::cloud_files::storage::{LocalStorageEntry, LocalStorageStats};
use crate::config::Config;
use crate::digits::{decimal, lemma_decimal_is_digits};
use crate::names::internal_name;
use crate::path::{same_place, LocalPath};
use crate::quark::item::{item_views, ItemView, RemoteItem};
use crate::quark::laws::writes;
use crate::quark::login::{QrCodeData, QrLoginResult};
use crate::quark::request::pairs;
use crate::text::{ascii_lower, is_ascii_text, is_blank, texts, trimmed};
use vstd::prelude::*;

verus! {

// ---------------------------------------------------------------------------
// The account
// ---------------------------------------------------------------------------

/// Two configurations mount the same remote root, under the same name, at the same
/// place, and start alike.
pub open spec fn same_mount(a: Config, b: Config) -> bool {
    &&& a.remote_root_id@ == b.remote_root_id@
    &&& a.remote_root_name@ == b.remote_root_name@
    &&& a.remote_root_label@ == b.remote_root_label@
    &&& a.start_on_login == b.start_on_login
    &&& a.mount_path@ == b.mount_path@
}

/// Two configurations have the same session and account.
pub open spec fn same_account(a: Config, b: Config) -> bool {
    &&& a.cookie@ == b.cookie@
    &&& a.account_nickname@ == b.account_nickname@
    &&& a.account_id@ == b.account_id@
    &&& a.account_avatar@ == b.account_avatar@
}

/// A login brings its session and its account into the configuration, and changes
/// nothing of the mount. With a session, no login is needed any more.
pub proof fn law_login_changes_the_account_only(
    config: Config,
    login: QrLoginResult,
    r: Config,
    needed: bool,
)
    requires
        call_ensures(finish_login, (config, login), r),
        call_ensures(config_needs_login, (&r,), needed),
    ensures
        r.cookie@ == login.cookie@,
        r.account_id@ == login.account.user_id@,
        r.account_avatar@ == login.account.avatar_url@,
        !is_blank(login.account.nickname@) ==> r.account_nickname@ == login.account.nickname@,
        is_blank(login.account.nickname@) ==> r.account_nickname@ == "夸克网盘账号"@,
        same_mount(r, config),
        needed <==> is_blank(login.cookie@),
{
}

/// The window names the account where there is a session and a name, and says that
/// nobody is logged in where there is no session.
pub proof fn law_account_is_named(config: Config, line: String, detail: String)
    requires
        call_ensures(account_text, (&config,), line),
        call_ensures(account_detail, (&config,), detail),
    ensures
        is_blank(config.cookie@) ==> line@ == "未登录夸克网盘"@ && detail@
            == "使用夸克网盘 APP 扫码登录，登录信息会自动保存"@,
        !is_blank(config.cookie@) && !is_blank(config.account_nickname@) ==> line@
            == config.account_nickname@,
        !is_blank(config.cookie@) && is_blank(config.account_nickname@) ==> line@
            == "已登录夸克网盘"@,
        !is_blank(config.cookie@) && !is_blank(config.account_id@) ==> detail@ == "账号 ID："@
            + config.account_id@ + " · 登录会话已保存"@,
{
}

// ---------------------------------------------------------------------------
// The remote root
// ---------------------------------------------------------------------------

proof fn lemma_directories(items: Seq<ItemView>)
    ensures
        forall|k: int|
            0 <= k < items.len() && (#[trigger] items[k]).is_directory && !internal_name(
                items[k].name,
            ) ==> directories(items).contains((items[k].id, items[k].name)),
        forall|i: int|
            0 <= i < directories(items).len() ==> is_folder_among(
                items,
                #[trigger] directories(items)[i],
            ),
    decreases items.len(),
{
    if items.len() > 0 {
        let init = items.drop_last();
        lemma_directories(init);
        let all = directories(items);
        let before = directories(init);
        assert forall|k: int|
            0 <= k < items.len() && (#[trigger] items[k]).is_directory && !internal_name(
                items[k].name,
            ) implies all.contains((items[k].id, items[k].name)) by {
            if k < init.len() {
                assert(init[k] == items[k]);
                let i = choose|i: int|
                    0 <= i < before.len() && before[i] == (init[k].id, init[k].name);
                assert(all[i] == before[i]);
            } else {
                assert(all[before.len() as int] == (items[k].id, items[k].name));
            }
        }
        assert forall|i: int| 0 <= i < all.len() implies is_folder_among(items, #[trigger] all[i]) by {
            if i < before.len() {
                assert(all[i] == before[i]);
                assert(is_folder_among(init, before[i]));
                let k = choose|k: int|
                    0 <= k < init.len() && (#[trigger] init[k]).is_directory && !internal_name(
                        init[k].name,
                    ) && before[i] == (init[k].id, init[k].name);
                assert(items[k] == init[k]);
            } else {
                assert(items[items.len() - 1] == items.last());
            }
        }
    }
}

/// An id and a name are those of a folder among some items that users see.
pub open spec fn is_folder_among(items: Seq<ItemView>, root: (Seq<char>, Seq<char>)) -> bool {
    exists|k: int|
        0 <= k < items.len() && (#[trigger] items[k]).is_directory && !internal_name(items[k].name)
            && root == (items[k].id, items[k].name)
}

/// Once there is a session, every folder at the top of the drive that users see can be
/// mounted, under its id and its name. The whole drive always can be, and comes
/// first; and what else can be is what is mounted already.
pub proof fn law_every_folder_can_be_mounted(
    config: Config,
    items: Vec<RemoteItem>,
    r: Vec<(String, String)>,
)
    requires
        !is_blank(config.cookie@),
        call_ensures(load_remote_roots, (&config, Some(items)), r),
    ensures
        r@.len() > 0,
        r@[0].0@ == "0"@ && r@[0].1@ == "全部文件"@,
        forall|k: int|
            0 <= k < items@.len() && (#[trigger] items@[k]).is_directory && !internal_name(
                items@[k].name@,
            ) ==> pairs(r@).contains((items@[k].id@, items@[k].name@)),
        forall|i: int|
            1 <= i < r@.len() ==> is_folder_among(
                item_views(items@),
                (#[trigger] pairs(r@)[i]),
            ) || pairs(r@)[i] == (config.remote_root_id@, config.remote_root_label@),
{
    let views = item_views(items@);
    lemma_directories(views);
    let listed = seq![whole_drive()] + directories(views);
    let all = pairs(r@);
    assert(all.len() == r@.len());
    assert(all[0] == (r@[0].0@, r@[0].1@));
    assert(all[0] == listed[0]);
    assert forall|k: int|
        0 <= k < items@.len() && (#[trigger] items@[k]).is_directory && !internal_name(
            items@[k].name@,
        ) implies all.contains((items@[k].id@, items@[k].name@)) by {
        assert(views[k] == items@[k]@);
        let root = (views[k].id, views[k].name);
        let i = choose|i: int| 0 <= i < directories(views).len() && directories(views)[i] == root;
        assert(listed[i + 1] == root);
        assert(all[i + 1] == root);
    }
    assert forall|i: int| 1 <= i < r@.len() implies is_folder_among(views, (#[trigger] all[i]))
        || all[i] == (config.remote_root_id@, config.remote_root_label@) by {
        if i < listed.len() {
            assert(all[i] == listed[i]);
            assert(directories(views)[i - 1] == listed[i]);
        }
    }
}

/// The root that is selected is the one with the id, the last where there are
/// several, and the first of all where there is none.
pub proof fn law_selected_root_has_the_id(roots: Vec<(String, String)>, id: &str, r: usize)
    requires
        call_ensures(selected_root, (&roots, id), r),
    ensures
        forall|i: int|
            0 <= i < roots@.len() && (#[trigger] roots@[i]).0@ == id@ ==> i <= r < roots@.len()
                && roots@[r as int].0@ == id@,
        (forall|i: int| 0 <= i < roots@.len() ==> (#[trigger] roots@[i]).0@ != id@) ==> r == 0,
{
    let all = pairs(roots@);
    assert forall|i: int| 0 <= i < roots@.len() implies all[i].0 == (#[trigger] roots@[i]).0@ by {}
    lemma_last_root(all, id@);
    assert forall|i: int| 0 <= i < roots@.len() && (#[trigger] roots@[i]).0@ == id@ implies i <= r
        < roots@.len() && roots@[r as int].0@ == id@ by {
        assert(all[i].0 == id@);
        assert(all[r as int].0 == roots@[r as int].0@);
    }
    if forall|i: int| 0 <= i < roots@.len() ==> (#[trigger] roots@[i]).0@ != id@ {
        assert forall|i: int| 0 <= i < all.len() implies (#[trigger] all[i]).0 != id@ by {
            assert(roots@[i].0@ != id@);
        }
    }
}

proof fn lemma_last_root(roots: Seq<(Seq<char>, Seq<char>)>, id: Seq<char>)
    ensures
        forall|i: int|
            0 <= i < roots.len() && (#[trigger] roots[i]).0 == id ==> i <= root_position(roots, id)
                && root_position(roots, id) < roots.len() && roots[root_position(
                roots,
                id,
            ) as int].0 == id,
        (forall|i: int| 0 <= i < roots.len() ==> (#[trigger] roots[i]).0 != id) ==> root_position(
            roots,
            id,
        ) == 0,
    decreases roots.len(),
{
    if roots.len() > 0 {
        let init = roots.drop_last();
        lemma_last_root(init, id);
        assert(roots.last() == roots[roots.len() - 1]);
        if roots.last().0 != id {
            assert forall|i: int| 0 <= i < roots.len() && (#[trigger] roots[i]).0 == id implies i
                <= root_position(roots, id) && root_position(roots, id) < roots.len()
                && roots[root_position(roots, id) as int].0 == id by {
                assert(init[i] == roots[i]);
            }
            if forall|i: int| 0 <= i < roots.len() ==> (#[trigger] roots[i]).0 != id {
                assert forall|i: int| 0 <= i < init.len() implies (#[trigger] init[i]).0 != id by {
                    assert(init[i] == roots[i]);
                }
            }
        }
    }
}

// ---------------------------------------------------------------------------
// Saving
// ---------------------------------------------------------------------------

/// The settings that were made are those that are saved: the place, the name
/// without white space around it, the root that was chosen, and whether the program
/// starts with the user's session. Session and account stay. Without a session
/// nothing is saved.
pub proof fn law_settings_are_saved_as_made(
    config: Config,
    mount: LocalPath,
    name: &str,
    roots: Vec<(String, String)>,
    selection: isize,
    startup: bool,
    r: Result<Config, SettingsError>,
)
    requires
        call_ensures(apply_settings, (&config, mount, name, &roots, selection, startup), r),
    ensures
        r is Ok <==> !is_blank(config.cookie@),
        r is Err ==> r->Err_0 == SettingsError::NotLoggedIn,
        r matches Ok(saved) ==> {
            &&& saved.mount_path@ == mount@
            &&& saved.remote_root_name@ == trimmed(name@)
            &&& saved.start_on_login == startup
            &&& same_account(saved, config)
            &&& 0 <= selection < roots@.len() ==> saved.remote_root_id@ == roots@[selection as int].0@
                && saved.remote_root_label@ == roots@[selection as int].1@
            &&& !(0 <= selection < roots@.len()) ==> saved.remote_root_id@ == config.remote_root_id@
                && saved.remote_root_label@ == config.remote_root_label@
        },
{
    let all = pairs(roots@);
    if 0 <= selection < roots@.len() {
        assert(all[selection as int] == (
            roots@[selection as int].0@,
            roots@[selection as int].1@,
        ));
    }
}

/// A path holds another, going by their texts with small letters and backslashes,
/// where it is the same or the other goes on behind a backslash, and not where it
/// goes on with anything else.
pub proof fn law_containment_ends_at_a_backslash(parent: Seq<char>, c: char, rest: Seq<char>)
    ensures
        contains_folded(parent, parent),
        contains_folded(parent, parent + (seq![c] + rest)) <==> c == '\\',
        !contains_folded(parent + (seq![c] + rest), parent),
{
    let child = parent + (seq![c] + rest);
    assert(parent =~= child.subrange(0, parent.len() as int));
    assert(child[parent.len() as int] == c);
    if contains_folded(child, parent) {
        assert(child.len() <= parent.len());
    }
}

/// A directory may be mounted to and deleted exactly where it is a place with a name
/// and none of the user's own, in letters of either case.
pub proof fn law_own_directories_are_protected(
    path: LocalPath,
    protected: Vec<LocalPath>,
    r: bool,
)
    requires
        call_ensures(is_safe_mount_directory, (&path, &protected), r),
    ensures
        r <==> path@.is_named_place() && forall|i: int|
            0 <= i < protected@.len() ==> ascii_lower(path.text@) != ascii_lower(
                (#[trigger] protected@[i]).text@,
            ),
{
    if r {
        assert forall|i: int| 0 <= i < protected@.len() implies ascii_lower(path.text@)
            != ascii_lower((#[trigger] protected@[i]).text@) by {
            assert(!same_place(path@, protected@[i]@));
        }
    } else if path@.is_named_place() {
        let i = choose|i: int|
            0 <= i < protected@.len() && same_place(path@, (#[trigger] protected@[i])@);
        assert(ascii_lower(path.text@) == ascii_lower(protected@[i].text@));
    }
}

/// The mount moves exactly where nothing stands against it: both places depend on no
/// other, the old directory is there, may be deleted and is the one that is
/// registered, neither contains the other, and the new place is empty or not there.
pub proof fn law_mount_moves_where_nothing_is_against_it(
    old_path: LocalPath,
    new_path: LocalPath,
    facts: MigrationFacts,
    safe: bool,
    holds: bool,
    held: bool,
    r: Result<(), MigrationError>,
)
    requires
        call_ensures(is_safe_mount_directory, (&old_path, &facts.protected), safe),
        call_ensures(is_ancestor_or_same, (&old_path, &new_path), holds),
        call_ensures(is_ancestor_or_same, (&new_path, &old_path), held),
        call_ensures(validate_mount_migration, (&old_path, &new_path, &facts), r),
    ensures
        r is Ok <==> {
            &&& old_path.absolute && new_path.absolute
            &&& facts.old_is_directory
            &&& safe
            &&& facts.registered is Some && ascii_lower(facts.registered->0@) == ascii_lower(
                old_path.text@,
            )
            &&& !holds && !held
            &&& facts.new_place is Absent || facts.new_place is Empty
        },
        ({
            let known = facts.registered is Some && ascii_lower(facts.registered->0@)
                == ascii_lower(old_path.text@);
            let both = old_path.absolute && new_path.absolute;
            let there = both && facts.old_is_directory;
            &&& !both ==> r->Err_0 == MigrationError::Relative
            &&& both && !there ==> r->Err_0 == MigrationError::OldMissing(old_path.text)
            &&& there && !safe ==> r->Err_0 == MigrationError::OldUnsafe(old_path.text)
            &&& there && safe && !known ==> r->Err_0 == MigrationError::OldNotRegistered(
                old_path.text,
            )
            &&& there && safe && known && (holds || held) ==> r->Err_0 == MigrationError::Nested
            &&& there && safe && known && !holds && !held && facts.new_place is Occupied
                ==> r->Err_0 == MigrationError::NewOccupied(new_path.text)
            &&& there && safe && known && !holds && !held && facts.new_place is NotDirectory
                ==> r->Err_0 == MigrationError::NewNotDirectory(new_path.text)
        }),
{
}

/// A name is needed. A mount that stays is saved without a question, and one that
/// moves is asked about where nothing stands against it; the question names both
/// places.
pub proof fn law_moves_are_asked_about(
    config: Config,
    mount: LocalPath,
    name: &str,
    facts: MigrationFacts,
    checked: Result<(), MigrationError>,
    r: Result<SaveStep, SettingsError>,
)
    requires
        call_ensures(validate_mount_migration, (&config.mount_path, &mount, &facts), checked),
        call_ensures(save_and_restart, (&config, &mount, name, &facts), r),
    ensures
        is_blank(name@) ==> r == Err::<SaveStep, SettingsError>(SettingsError::BlankName),
        !is_blank(name@) ==> {
            let stays = ascii_lower(config.mount_path.text@) == ascii_lower(mount.text@);
            &&& stays ==> r == Ok::<SaveStep, SettingsError>(SaveStep::Save)
            &&& !stays ==> {
                &&& r is Ok <==> checked is Ok
                &&& r is Err ==> r->Err_0 == SettingsError::Migration(checked->Err_0)
                &&& r matches Ok(step) ==> {
                    &&& step matches SaveStep::AskFirst(question)
                    &&& exists|a: Seq<char>, b: Seq<char>, c: Seq<char>|
                        question@ == #[trigger] (a + config.mount_path.text@ + b + mount.text@ + c)
                            && a.len() > 0 && b.len() > 0 && c.len() > 0
                }
            }
        },
{
    reveal_strlit("将把夸克网盘挂载位置从：\n");
    reveal_strlit("\n\n切换到：\n");
    reveal_strlit(
        "\n\n旧挂载目录中的全部文件和文件夹会从本机删除，然后在新目录重新同步。云端文件不会被删除。\n\n是否继续？",
    );
    if let Ok(SaveStep::AskFirst(question)) = r {
        let a = "将把夸克网盘挂载位置从：\n"@;
        let b = "\n\n切换到：\n"@;
        let c =
            "\n\n旧挂载目录中的全部文件和文件夹会从本机删除，然后在新目录重新同步。云端文件不会被删除。\n\n是否继续？"@;
        assert(question@ == a + config.mount_path.text@ + b + mount.text@ + c);
    }
}

/// Saving begins with the question where the mount moves, and with nothing that
/// touches a file where it does not; what will be saved is what was set.
pub proof fn law_saving_begins(
    config: Config,
    mount: LocalPath,
    name: &str,
    facts: MigrationFacts,
    roots: Vec<(String, String)>,
    selection: isize,
    startup: bool,
    step: Result<SaveStep, SettingsError>,
    applied: Result<Config, SettingsError>,
    r: Result<(SaveStage, SaveAction), SettingsError>,
)
    requires
        call_ensures(save_and_restart, (&config, &mount, name, &facts), step),
        call_ensures(apply_settings, (&config, mount, name, &roots, selection, startup), applied),
        call_ensures(
            begin_saving,
            (&config, mount, name, &facts, &roots, selection, startup),
            r,
        ),
    ensures
        step matches Err(e) ==> r == Err::<(SaveStage, SaveAction), SettingsError>(e),
        step matches Ok(SaveStep::AskFirst(question)) ==> {
            &&& r is Ok
            &&& r->Ok_0.1 matches SaveAction::Ask(q)
            &&& q@ == question@
            &&& r->Ok_0.0 matches SaveStage::Asking(a)
            &&& a is Ok <==> applied is Ok
            &&& a is Ok ==> a->Ok_0@ == applied->Ok_0@
        },
        step matches Ok(SaveStep::Save) ==> {
            &&& r is Ok <==> applied is Ok
            &&& r is Ok ==> {
                &&& r->Ok_0.1 == SaveAction::SetStartup(startup)
                &&& r->Ok_0.0 matches SaveStage::SettingStartup { config: saved, moves }
                &&& !moves
                &&& saved@ == applied->Ok_0@
            }
        },
{
}

/// Saving goes on step by step: after a yes the start is set, then the mount is moved
/// if it moves, then the configuration is written, then the program is started anew.
/// A step that fails ends it with the reason, but a move that fails has the old
/// directory mounted again first. A no ends it.
pub proof fn law_saving_goes_step_by_step(stage: SaveStage, event: SaveEvent, r: SaveNext)
    requires
        stage.awaits(event),
        call_ensures(SaveStage::after, (stage, event), r),
    ensures
        event == SaveEvent::Answered(false) ==> r == SaveNext::Cancelled,
        r == SaveNext::Cancelled ==> event == SaveEvent::Answered(false),
        r == SaveNext::Finished <==> stage is Restarting && (event matches SaveEvent::Done(result)
            && result is Ok),
        stage matches SaveStage::Asking(applied) ==> (event == SaveEvent::Answered(true) ==> (
        match applied {
            Ok(config) => r == SaveNext::Act(
                SaveStage::SettingStartup { config, moves: true },
                SaveAction::SetStartup(config.start_on_login),
            ),
            Err(e) => r is Failed && r->Failed_0@ == e.text(),
        })),
        event matches SaveEvent::Done(result) && result is Ok ==> {
            &&& stage matches SaveStage::SettingStartup { config, moves } ==> r == (if moves {
                SaveNext::Act(SaveStage::Moving(config), SaveAction::MoveMount)
            } else {
                SaveNext::Act(SaveStage::Writing(config), SaveAction::Write)
            })
            &&& stage matches SaveStage::Moving(config) ==> r == SaveNext::Act(
                SaveStage::Writing(config),
                SaveAction::Write,
            )
            &&& stage is Writing ==> r == SaveNext::Act(SaveStage::Restarting, SaveAction::Restart)
        },
        event matches SaveEvent::Done(result) && result is Err ==> {
            let reason = event->Done_0->Err_0;
            &&& stage is Moving ==> r == SaveNext::Act(
                SaveStage::Reconnecting(reason),
                SaveAction::Reconnect,
            )
            &&& stage is SettingStartup || stage is Writing || stage is Restarting ==> r is Failed
                && r->Failed_0@ == reason@
        },
        stage matches SaveStage::Reconnecting(failure) ==> r is Failed && r->Failed_0@ == failure@,
{
}

/// The old directory is deleted after it was unregistered, and tried again after a
/// failure, up to three times and after a pause; only when it is gone does the move
/// go on. Any other failure ends it with its reason.
pub proof fn law_move_goes_step_by_step(
    stage: MigrateStage,
    outcome: Result<(), String>,
    old_path: LocalPath,
    r: MigrateNext,
)
    requires
        call_ensures(migrate_mount_directory, (stage, outcome, &old_path), r),
    ensures
        r is CreateParent <==> stage is Removing && outcome is Ok,
        r is Done <==> stage is CreatingParent && outcome is Ok,
        stage is Unregistering && outcome is Ok ==> r == (MigrateNext::Remove {
            failures: 0,
            pause_ms: 0,
        }),
        stage matches MigrateStage::Removing { failures } ==> outcome is Err ==> {
            &&& failures < 3 ==> r == (MigrateNext::Remove {
                failures: (failures + 1) as u32,
                pause_ms: 250,
            })
            &&& failures >= 3 ==> r is Failed
        },
        !(stage is Removing) && outcome is Err ==> r is Failed && r->reason@ == outcome->Err_0@,
{
}

/// The program is started by its path in quotation marks, so that spaces in it do
/// not matter.
pub proof fn law_startup_quotes_the_program(executable: &str, r: String)
    requires
        call_ensures(startup_command, (executable,), r),
    ensures
        r@.len() == executable@.len() + 2,
        r@[0] == '"',
        r@.last() == '"',
        r@.subrange(1, r@.len() - 1) == executable@,
{
    reveal_strlit("\"");
    assert(r@.subrange(1, r@.len() - 1) =~= executable@);
}

// ---------------------------------------------------------------------------
// The local space
// ---------------------------------------------------------------------------

/// The user is asked exactly where something is selected and has something to give
/// back; a yes gives up what was selected, and no other.
pub proof fn law_release_is_asked_about(selected: Vec<LocalPath>, bytes: u64, r: ReleasePrompt)
    requires
        call_ensures(release_prompt, (selected, bytes), r),
    ensures
        r is Ask <==> selected@.len() > 0 && bytes > 0,
        r matches ReleasePrompt::Ask(_, task) ==> task matches StorageTask::Release {
            selected: s,
            expected_bytes,
        } && s@ == selected@ && expected_bytes == bytes,
{
}

/// Something can be given back exactly where something was counted as such, and what
/// was given back is told after a release and only then.
pub proof fn law_report_tells_what_can_be_given_back(
    task: StorageTask,
    stats: LocalStorageStats,
    r: StorageReport,
)
    requires
        call_ensures(finish_storage_task, (&task, &stats), r),
    ensures
        r.can_release <==> stats.releasable_bytes > 0,
        r.released is Some <==> task is Release,
{
}

/// One more place in the list, if it is one of the list, selects one more path: that
/// of the entry there.
pub proof fn law_places_select_their_entries(
    entries: Vec<LocalStorageEntry>,
    places: Vec<i32>,
    place: i32,
    more: Vec<i32>,
    r: Vec<LocalPath>,
    longer: Vec<LocalPath>,
)
    requires
        more@ == places@.push(place),
        more@.len() <= isize::MAX,
        call_ensures(selected_storage_paths, (&entries, &places, places@.len() as isize), r),
        call_ensures(selected_storage_paths, (&entries, &more, more@.len() as isize), longer),
    ensures
        places@.len() == 0 ==> r@.len() == 0,
        0 <= place < entries@.len() ==> path_views(longer@) == path_views(r@).push(
            entries@[place as int].path@,
        ),
        !(0 <= place < entries@.len()) ==> path_views(longer@) == path_views(r@),
{
    assert(more@.drop_last() =~= places@);
    assert(filled(more@, more@.len() as isize) =~= more@);
    assert(filled(places@, places@.len() as isize) =~= places@);
    assert(path_views(r@).len() == r@.len());
}

/// One more selected path adds what its entry can give back, and one that is in no
/// entry adds nothing.
pub proof fn law_selected_paths_add_up(
    entries: Vec<LocalStorageEntry>,
    selected: Vec<LocalPath>,
    path: LocalPath,
    more: Vec<LocalPath>,
    r: u64,
    longer: u64,
    i: int,
)
    requires
        more@ == selected@.push(path),
        call_ensures(selected_bytes, (&entries, &selected), Some(r)),
        call_ensures(selected_bytes, (&entries, &more), Some(longer)),
        0 <= i <= entries@.len(),
        forall|k: int|
            0 <= k < i ==> (#[trigger] entries@[k]).path@.components != path@.components,
        i < entries@.len() ==> entries@[i].path@.components == path@.components,
    ensures
        selected@.len() == 0 ==> r == 0,
        i < entries@.len() ==> longer == r + entries@[i].releasable_bytes,
        i == entries@.len() ==> longer == r,
{
    assert(path_views(more@).drop_last() =~= path_views(selected@));
    assert(path_views(more@).last() == path@);
    lemma_bytes_of_path(entries@, path, i);
}

proof fn lemma_bytes_of_path(entries: Seq<LocalStorageEntry>, path: LocalPath, i: int)
    requires
        0 <= i <= entries.len(),
        forall|k: int| 0 <= k < i ==> (#[trigger] entries[k]).path@.components != path@.components,
        i < entries.len() ==> entries[i].path@.components == path@.components,
    ensures
        bytes_of_path(entries, path@) == (if i < entries.len() {
            entries[i].releasable_bytes as nat
        } else {
            0
        }),
    decreases entries.len(),
{
    if i > 0 {
        let rest = entries.skip(1);
        assert forall|k: int| 0 <= k < i - 1 implies (#[trigger] rest[k]).path@.components
            != path@.components by {
            assert(rest[k] == entries[k + 1]);
        }
        assert(entries[0].path@.components != path@.components);
        lemma_bytes_of_path(rest, path, i - 1);
    }
}

// ---------------------------------------------------------------------------
// The controls
// ---------------------------------------------------------------------------

/// The controls show the configuration: the account, the place, the name, and
/// whether the program starts with the user's session. There is one for each.
pub proof fn law_controls_show_the_configuration(
    config: Config,
    roots: Vec<(String, String)>,
    controls: Vec<Control>,
    line: String,
    detail: String,
)
    requires
        call_ensures(create_controls, (&config, &roots), controls),
        call_ensures(account_text, (&config,), line),
        call_ensures(account_detail, (&config,), detail),
    ensures
        forall|i: int|
            0 <= i < controls@.len() ==> {
                let c = #[trigger] controls@[i];
                &&& c.role is AccountStatus ==> c.text@ == line@
                &&& c.role is AccountDetail ==> c.text@ == detail@
                &&& c.role is PathEdit ==> c.text@ == config.mount_path.text@
                &&& c.role is NameEdit ==> c.text@ == config.remote_root_name@
                &&& c.role is StartupCheck ==> c.checked == config.start_on_login
            },
        exists|i: int| 0 <= i < controls@.len() && (#[trigger] controls@[i]).role is AccountStatus,
        exists|i: int| 0 <= i < controls@.len() && (#[trigger] controls@[i]).role is PathEdit,
        exists|i: int| 0 <= i < controls@.len() && (#[trigger] controls@[i]).role is NameEdit,
        exists|i: int| 0 <= i < controls@.len() && (#[trigger] controls@[i]).role is StartupCheck,
        exists|i: int| 0 <= i < controls@.len() && (#[trigger] controls@[i]).role is RootChoice,
        exists|i: int| 0 <= i < controls@.len() && (#[trigger] controls@[i]).role is Save,
{
    let views = control_views(controls@);
    let layout = settings_layout(config@, pairs(roots@));
    assert(views.len() == controls@.len());
    assert(layout.len() == 30);
    assert forall|i: int| 0 <= i < controls@.len() implies {
        let c = #[trigger] controls@[i];
        &&& c.role is AccountStatus ==> c.text@ == line@
        &&& c.role is AccountDetail ==> c.text@ == detail@
        &&& c.role is PathEdit ==> c.text@ == config.mount_path.text@
        &&& c.role is NameEdit ==> c.text@ == config.remote_root_name@
        &&& c.role is StartupCheck ==> c.checked == config.start_on_login
    } by {
        assert(views[i] == controls@[i]@);
        assert(views[i] == layout[i]);
    }
    assert(views[6] == controls@[6]@ && layout[6].role is AccountStatus);
    assert(views[14] == controls@[14]@ && layout[14].role is PathEdit);
    assert(views[16] == controls@[16]@ && layout[16].role is NameEdit);
    assert(views[17] == controls@[17]@ && layout[17].role is StartupCheck);
    assert(views[11] == controls@[11]@ && layout[11].role is RootChoice);
    assert(views[25] == controls@[25]@ && layout[25].role is Save);
}

/// The controls of the log are shown on its tab and only there, those that stand for
/// nothing in particular on both, and all others of the settings on the other tab and
/// only there.
pub proof fn law_tabs_show_their_controls(role: Role, on_log: bool, on_settings: bool)
    requires
        call_ensures(set_tab, (role, true), on_log),
        call_ensures(set_tab, (role, false), on_settings),
    ensures
        role is LogText || role is LogRefresh || role is LogClear ==> on_log && !on_settings,
        role is Plain || role is AccountIcon ==> on_log && on_settings,
        role is AccountStatus || role is AccountDetail || role is LoginButton || role is RootChoice
            || role is PathEdit || role is NameEdit || role is StartupCheck || role is StorageStatus
            || role is StorageDetail || role is StorageList || role is StorageScan
            || role is StorageRelease || role is OpenFolder || role is Save || role is Cancel
            ==> !on_log && on_settings,
{
}

// ---------------------------------------------------------------------------
// The QR code
// ---------------------------------------------------------------------------

proof fn lemma_dark_places(width: int, modules: Seq<bool>, count: nat)
    requires
        width > 0,
        count <= modules.len(),
    ensures
        forall|k: int|
            0 <= k < count && #[trigger] modules[k] ==> dark_places(width, modules, count).contains(
                module_place(width, k % width, k / width),
            ),
        forall|i: int|
            0 <= i < dark_places(width, modules, count).len() ==> is_dark_place(
                width,
                modules,
                count,
                #[trigger] dark_places(width, modules, count)[i],
            ),
    decreases count,
{
    if count > 0 {
        let last = (count - 1) as nat;
        lemma_dark_places(width, modules, last);
        let all = dark_places(width, modules, count);
        let before = dark_places(width, modules, last);
        assert forall|k: int| 0 <= k < count && #[trigger] modules[k] implies all.contains(
            module_place(width, k % width, k / width),
        ) by {
            if k < last {
                let place = module_place(width, k % width, k / width);
                let i = choose|i: int| 0 <= i < before.len() && before[i] == place;
                assert(all[i] == before[i]);
            } else {
                assert(all[before.len() as int] == module_place(width, k % width, k / width));
            }
        }
        assert forall|i: int| 0 <= i < all.len() implies is_dark_place(
            width,
            modules,
            count,
            #[trigger] all[i],
        ) by {
            if i < before.len() {
                assert(all[i] == before[i]);
                assert(is_dark_place(width, modules, last, before[i]));
            } else {
                assert(modules[last as int]);
            }
        }
    }
}

/// A rectangle is the place of one of the dark modules.
pub open spec fn is_dark_place(
    width: int,
    modules: Seq<bool>,
    count: nat,
    place: Rectangle,
) -> bool {
    exists|k: int|
        0 <= k < count && #[trigger] modules[k] && place == module_place(
            width,
            k % width,
            k / width,
        )
}

/// What is painted of a code is a rectangle for every dark module, and for no light
/// one, in the column and the row of the module.
pub proof fn law_dark_modules_are_painted(qr: QrCodeData, r: Vec<Rectangle>)
    requires
        qr.wf(),
        call_ensures(paint_qr, (&qr,), r),
    ensures
        forall|k: int|
            0 <= k < qr.modules@.len() && #[trigger] qr.modules@[k] ==> r@.contains(
                module_place(qr.width as int, k % qr.width as int, k / qr.width as int),
            ),
        forall|i: int|
            0 <= i < r@.len() ==> is_dark_place(
                qr.width as int,
                qr.modules@,
                qr.modules@.len(),
                #[trigger] r@[i],
            ),
{
    lemma_dark_places(qr.width as int, qr.modules@, qr.modules@.len());
}

/// The modules of a code stand side by side, and the code stands in the middle of
/// its area, with four modules free on each side.
pub proof fn law_code_is_in_the_middle(width: int, x: int, y: int)
    requires
        21 <= width <= 177,
        0 <= x < width - 1,
        0 <= y < width - 1,
    ensures
        ({
            let place = module_place(width, x, y);
            let right = module_place(width, x + 1, y);
            let below = module_place(width, x, y + 1);
            &&& right.left == place.right && right.top == place.top
            &&& below.top == place.bottom && below.left == place.left
        }),
        ({
            let size = module_size(width);
            let first = module_place(width, 0, 0);
            let last = module_place(width, width - 1, width - 1);
            let left = first.left - 44;
            let right = 44 + 610 - last.right;
            let top = first.top - 82;
            let bottom = 82 + 620 - last.bottom;
            &&& left >= 4 * size && right >= 4 * size && -1 <= left - right <= 1
            &&& top >= 4 * size && bottom >= 4 * size && -1 <= top - bottom <= 1
            &&& (width + 8) * (size + 1) > 610
        }),
{
    law_modules_stay_in_the_area(width, x, y);
    law_modules_stay_in_the_area(width, x + 1, y);
    law_modules_stay_in_the_area(width, x, y + 1);
    law_modules_stay_in_the_area(width, 0, 0);
    law_modules_stay_in_the_area(width, width - 1, width - 1);
    let size = module_size(width);
    let across = modules_across(width);
    assert(size == 610int / across);
    assert(across * size <= 610 && across * (size + 1) > 610) by (nonlinear_arith)
        requires
            29 <= across <= 185,
            size == 610int / across,
    ;
    super::qr_view::lemma_edges(width, x + 4);
    super::qr_view::lemma_edges(width, x + 5);
    super::qr_view::lemma_edges(width, x + 6);
    super::qr_view::lemma_edges(width, y + 4);
    super::qr_view::lemma_edges(width, y + 5);
    super::qr_view::lemma_edges(width, y + 6);
    super::qr_view::lemma_edges(width, 4);
    super::qr_view::lemma_edges(width, width + 4);
    assert((width + 4) * size + 4 * size == across * size) by (nonlinear_arith)
        requires
            across == width + 8,
    ;
    assert((width - 1 + 5) * size == (width + 4) * size);
}

/// For paths of ASCII letters: a path that goes on from another, in letters of either
/// case and with either slash, lies in it exactly where a slash comes next.
pub proof fn law_directories_hold_what_is_below(
    parent: LocalPath,
    child: LocalPath,
    r: bool,
    c: char,
    rest: Seq<char>,
)
    requires
        call_ensures(is_ancestor_or_same, (&parent, &child), r),
        is_ascii_text(parent.text@),
        is_ascii_text(child.text@),
        ascii_lower(with_backslashes(child.text@)) == ascii_lower(with_backslashes(parent.text@))
            + (seq![c] + rest),
    ensures
        r <==> c == '\\',
{
    law_containment_ends_at_a_backslash(
        ascii_lower(with_backslashes(parent.text@)),
        c,
        rest,
    );
}

/// Slashes become backslashes, and nothing else changes.
pub proof fn law_only_slashes_are_turned(s: Seq<char>, i: int)
    requires
        0 <= i < s.len(),
    ensures
        with_backslashes(s).len() == s.len(),
        s[i] == '/' ==> with_backslashes(s)[i] == '\\',
        s[i] != '/' ==> with_backslashes(s)[i] == s[i],
{
}

/// Without a session only the whole drive is offered. With one, and where the drive
/// could not be listed, what is mounted is offered too.
pub proof fn law_whole_drive_is_always_offered(
    config: Config,
    items: Option<Vec<RemoteItem>>,
    r: Vec<(String, String)>,
)
    requires
        call_ensures(load_remote_roots, (&config, items), r),
    ensures
        r@.len() > 0,
        r@[0].0@ == "0"@ && r@[0].1@ == "全部文件"@,
        is_blank(config.cookie@) ==> r@.len() == 1,
        !is_blank(config.cookie@) && items is None && config.remote_root_id@ != "0"@ ==> r@.len()
            == 2 && r@[1].0@ == config.remote_root_id@ && r@[1].1@ == config.remote_root_label@,
        !is_blank(config.cookie@) && items is None && config.remote_root_id@ == "0"@ ==> r@.len()
            == 1,
{
    let all = pairs(r@);
    assert(all.len() == r@.len());
    assert(all[0] == (r@[0].0@, r@[0].1@));
    if r@.len() > 1 {
        assert(all[1] == (r@[1].0@, r@[1].1@));
    }
    if !is_blank(config.cookie@) && items is None {
        let listed = seq![whole_drive()] + Seq::<(Seq<char>, Seq<char>)>::empty();
        assert(listed =~= seq![whole_drive()]);
        assert(has_root(listed, config.remote_root_id@) ==> config.remote_root_id@ == "0"@);
    }
}

/// The labels that can be chosen are those of the roots, in their order.
pub proof fn law_labels_are_those_of_the_roots(roots: Vec<(String, String)>, r: Vec<String>, i: int)
    requires
        call_ensures(root_labels, (&roots,), r),
        0 <= i < roots@.len(),
    ensures
        r@.len() == roots@.len(),
        r@[i]@ == roots@[i].1@,
{
    let all = texts(r@);
    assert(all.len() == r@.len());
    assert(all[i] == r@[i]@);
    assert(pairs(roots@)[i] == (roots@[i].0@, roots@[i].1@));
}

/// What is shown of the local space are the numbers that were counted, and what a
/// release has given back is as much less as there is to give back now.
pub proof fn law_report_shows_what_was_counted(
    task: StorageTask,
    stats: LocalStorageStats,
    here: String,
    free: String,
    whole: String,
    given: String,
    less: u64,
    r: StorageReport,
)
    requires
        call_ensures(finish_storage_task, (&task, &stats), r),
        call_ensures(format_bytes, (stats.local_bytes,), here),
        call_ensures(format_bytes, (stats.releasable_bytes,), free),
        call_ensures(format_bytes, (stats.logical_bytes,), whole),
        call_ensures(format_bytes, (less,), given),
        task matches StorageTask::Release { expected_bytes, .. } ==> (if expected_bytes
            >= stats.releasable_bytes {
            less == expected_bytes - stats.releasable_bytes
        } else {
            less == 0
        }),
    ensures
        r.status@ == "本地占用 "@ + here@ + " · 可释放 "@ + free@,
        exists|count: Seq<char>|
            #[trigger] writes(count, stats.releasable_files as int) && r.detail@ == "云端文件总容量 "@
                + whole@ + " · "@ + count + " 个文件已占用本地空间"@,
        task is Release ==> r.released is Some && r.released->0@ == "已释放 "@ + given@
            + " 本地空间。云端文件保持不变。"@,
{
    lemma_decimal_is_digits(stats.releasable_files as nat);
    assert(writes(decimal(stats.releasable_files as nat), stats.releasable_files as int));
}

/// The line of an entry names it, by the last part of its path or by the whole of it,
/// and tells how much it can give back and in how many files.
pub proof fn law_lines_tell_the_entry(
    name: Option<&str>,
    entry: LocalStorageEntry,
    size: String,
    r: String,
)
    requires
        call_ensures(storage_label, (name, &entry), r),
        call_ensures(format_bytes, (entry.releasable_bytes,), size),
    ensures
        exists|count: Seq<char>|
            #[trigger] writes(count, entry.file_count as int) && r@ == (if name is Some {
                name->0@
            } else {
                entry.path.text@
            }) + "   "@ + size@ + "   ("@ + count + " 个文件)"@,
{
    lemma_decimal_is_digits(entry.file_count as nat);
    assert(writes(decimal(entry.file_count as nat), entry.file_count as int));
}

/// The question before a release tells how much it will give back, and of how many
/// entries.
pub proof fn law_release_question_tells_how_much(
    selected: Vec<LocalPath>,
    bytes: u64,
    size: String,
    question: String,
    task: StorageTask,
)
    requires
        call_ensures(release_prompt, (selected, bytes), ReleasePrompt::Ask(question, task)),
        call_ensures(format_bytes, (bytes,), size),
    ensures
        exists|count: Seq<char>, rest: Seq<char>|
            writes(count, selected@.len() as int) && question@ == #[trigger] ("将释放 "@ + size@
                + " 本地空间（"@ + count + rest),
{
    let count = decimal(selected@.len());
    lemma_decimal_is_digits(selected@.len());
    let rest =
        " 个目录/文件）。\n\n文件仍会保留在夸克网盘和资源管理器中，再次打开时会按需下载。标记为“始终保留在此设备上”的文件不会被释放。"@;
    assert(question@ == "将释放 "@ + size@ + " 本地空间（"@ + count + rest);
}

/// Small sizes are shown in bytes, and larger ones in the largest unit of which there
/// is at least one, with one decimal, no further off than half of it.
pub proof fn law_sizes_are_shown_to_a_tenth(bytes: u64, r: String)
    requires
        call_ensures(format_bytes, (bytes,), r),
        bytes < 0x20_0000_0000_0000,
    ensures
        bytes < 1024 ==> exists|number: Seq<char>|
            #[trigger] writes(number, bytes as int) && r@ == number + " B"@,
        bytes >= 1024 ==> exists|whole: Seq<char>, tenth: Seq<char>, tenths: int, unit: int|
            {
                &&& r@ == #[trigger] (whole + "."@ + tenth + " "@ + unit_of(unit))
                &&& #[trigger] writes(whole, tenths / 10)
                &&& #[trigger] writes(tenth, tenths % 10)
                &&& unit <= bytes
                &&& unit == 0x400 || unit == 0x10_0000 || unit == 0x4000_0000 || unit
                    == 0x100_0000_0000
                &&& bytes < 1024 * unit || unit == 0x100_0000_0000
                &&& -unit <= 2 * (tenths * unit - 10 * bytes) <= unit
            },
{
    lemma_decimal_is_digits(bytes as nat);
    reveal_with_fuel(unit_size, 5);
    let n = bytes as nat;
    if bytes < 1024 {
        assert(writes(decimal(n), bytes as int));
    } else {
        let unit = unit_size(unit_for(n)) as int;
        let tenths = rounded(10 * n, unit as nat);
        law_rounding_is_nearest(10 * n, unit as nat);
        let whole = decimal(tenths / 10);
        let tenth = decimal(tenths % 10);
        lemma_decimal_is_digits(tenths / 10);
        lemma_decimal_is_digits(tenths % 10);
        assert(unit_name(unit_for(n)) == unit_of(unit));
        assert(writes(whole, tenths as int / 10));
        assert(writes(tenth, tenths as int % 10));
        assert(r@ == whole + "."@ + tenth + " "@ + unit_of(unit));
    }
}

/// The name of a unit.
pub open spec fn unit_of(size: int) -> Seq<char> {
    if size == 0x400 {
        "KB"@
    } else if size == 0x10_0000 {
        "MB"@
    } else if size == 0x4000_0000 {
        "GB"@
    } else {
        "TB"@
    }
}

/// Each button of the window does what it is for, whatever else its message carries,
/// and a field that only holds a value does nothing.
pub proof fn law_buttons_do_what_they_are_for(
    config: Config,
    roots: Vec<(String, String)>,
    controls: Vec<Control>,
    i: int,
    message: usize,
    command: Option<AppCommand>,
)
    requires
        call_ensures(create_controls, (&config, &roots), controls),
        0 <= i < controls@.len(),
        message as int % 0x10000 == controls@[i].id,
        call_ensures(handle_command, (message,), command),
    ensures
        controls@[i].role is Save ==> command == Some(AppCommand::Save),
        controls@[i].role is Cancel ==> command == Some(AppCommand::Hide),
        controls@[i].role is LoginButton ==> command == Some(AppCommand::Login),
        controls@[i].role is OpenFolder ==> command == Some(AppCommand::OpenFolder),
        controls@[i].role is StorageScan ==> command == Some(AppCommand::ScanStorage),
        controls@[i].role is StorageRelease ==> command == Some(AppCommand::ReleaseStorage),
        controls@[i].role is LogRefresh ==> command == Some(AppCommand::RefreshLog),
        controls@[i].role is LogClear ==> command == Some(AppCommand::ClearLog),
        controls@[i].role is PathEdit || controls@[i].role is NameEdit
            || controls@[i].role is StartupCheck || controls@[i].role is RootChoice
            ==> command is None,
{
    let views = control_views(controls@);
    let layout = settings_layout(config@, pairs(roots@));
    assert(views.len() == controls@.len());
    assert(views[i] == controls@[i]@);
    assert(views[i] == layout[i]);
}

/// The button of the login window cancels the login, and no other message does.
pub proof fn law_login_is_cancelled_by_its_button(
    controls: Vec<Control>,
    i: int,
    message: usize,
    cancelled: bool,
)
    requires
        call_ensures(create_qr_controls, (), controls),
        0 <= i < controls@.len(),
        controls@[i].role is LoginCancel,
        call_ensures(cancels_login, (message,), cancelled),
    ensures
        cancelled <==> message as int % 0x10000 == controls@[i].id,
{
    let views = control_views(controls@);
    assert(views.len() == controls@.len());
    assert(views[i] == controls@[i]@);
}

/// The mount has changed exactly where its new place is written with other letters
/// than the old one, large and small being the same.
pub proof fn law_mount_changes_with_its_letters(old_path: LocalPath, new_path: LocalPath, r: bool)
    requires
        call_ensures(mount_changed, (&old_path, &new_path), r),
    ensures
        r <==> ascii_lower(old_path.text@) != ascii_lower(new_path.text@),
{
}

} // verus!
