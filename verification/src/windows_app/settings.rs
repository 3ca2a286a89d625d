//! The account, the remote root and the mount, as the settings window shows and
//! changes them.

use super::mount::{mount_changed, obstacle, validate_mount_migration, MigrationError, MigrationFacts};
use crate::config::{default_root_id, default_root_label, Config, ConfigView};
use crate::names::{internal_name, is_internal_name};
use crate::path::{same_place, LocalPath, PathView};
use crate::quark::error::{error_message, ErrorView};
use crate::quark::item::{item_views, ItemView, RemoteItem};
use crate::quark::login::QrLoginResult;
use crate::quark::request::pairs;
use crate::text::{blank, concat3, is_blank, same_text, texts, trim, trimmed};
use vstd::prelude::*;

verus! {

// ---------------------------------------------------------------------------
// The account
// ---------------------------------------------------------------------------

/// Whether the user has to log in before anything can be mounted.
pub fn config_needs_login(config: &Config) -> (r: bool)
    ensures
        r == is_blank(config.cookie@),
{
    blank(config.cookie.as_str())
}

/// The line that says who is logged in.
pub open spec fn account_line(config: ConfigView) -> Seq<char> {
    if is_blank(config.cookie) {
        "未登录夸克网盘"@
    } else if is_blank(config.account_nickname) {
        "已登录夸克网盘"@
    } else {
        config.account_nickname
    }
}

/// The line that says who is logged in.
pub fn account_text(config: &Config) -> (r: String)
    ensures
        r@ == account_line(config@),
{
    if blank(config.cookie.as_str()) {
        "未登录夸克网盘".to_owned()
    } else if blank(config.account_nickname.as_str()) {
        "已登录夸克网盘".to_owned()
    } else {
        config.account_nickname.clone()
    }
}

/// The line that names an account by its id.
pub open spec fn account_id_line(id: Seq<char>) -> Seq<char> {
    "账号 ID："@ + id + " · 登录会话已保存"@
}

/// The line below the one that says who is logged in.
pub open spec fn account_detail_line(config: ConfigView) -> Seq<char> {
    if is_blank(config.cookie) {
        "使用夸克网盘 APP 扫码登录，登录信息会自动保存"@
    } else if is_blank(config.account_id) {
        "已保存登录会话，可重新扫码切换账号"@
    } else {
        account_id_line(config.account_id)
    }
}

/// The line below the one that says who is logged in.
pub fn account_detail(config: &Config) -> (r: String)
    ensures
        r@ == account_detail_line(config@),
{
    if blank(config.cookie.as_str()) {
        "使用夸克网盘 APP 扫码登录，登录信息会自动保存".to_owned()
    } else if blank(config.account_id.as_str()) {
        "已保存登录会话，可重新扫码切换账号".to_owned()
    } else {
        concat3("账号 ID：", config.account_id.as_str(), " · 登录会话已保存")
    }
}

/// The configuration after a login: another session and account, all else as
/// before.
pub open spec fn after_login(config: ConfigView, login: QrLoginResult) -> ConfigView {
    ConfigView {
        cookie: login.cookie@,
        account_nickname: if is_blank(login.account.nickname@) {
            "夸克网盘账号"@
        } else {
            login.account.nickname@
        },
        account_id: login.account.user_id@,
        account_avatar: login.account.avatar_url@,
        ..config
    }
}

/// The configuration after a login.
pub fn finish_login(config: Config, login: QrLoginResult) -> (r: Config)
    ensures
        r@ == after_login(config@, login),
{
    let nickname = if blank(login.account.nickname.as_str()) {
        "夸克网盘账号".to_owned()
    } else {
        login.account.nickname
    };
    let mut config = config;
    config.cookie = login.cookie;
    config.account_nickname = nickname;
    config.account_id = login.account.user_id;
    config.account_avatar = login.account.avatar_url;
    config
}

/// The line below the account's name right after a login.
pub fn login_detail(config: &Config) -> (r: String)
    ensures
        r@ == (if config.account_id@.len() == 0 {
            "登录会话已保存，可点击保存并重启完成挂载"@
        } else {
            account_id_line(config.account_id@)
        }),
{
    if config.account_id.as_str().is_empty() {
        "登录会话已保存，可点击保存并重启完成挂载".to_owned()
    } else {
        concat3("账号 ID：", config.account_id.as_str(), " · 登录会话已保存")
    }
}

/// Whether the user is told that the login has failed: not if the user has
/// cancelled it.
pub fn login_failure_shown(message: &str) -> (r: bool)
    ensures
        r == (message@ != "二维码登录失败: 登录已取消"@),
{
    !same_text(message, "二维码登录失败: 登录已取消")
}

/// A user who has cancelled the login is not told that it has failed.
pub proof fn law_cancelled_login_is_silent(message: &str, shown: bool)
    requires
        message@ == error_message(ErrorView::Login("登录已取消"@)),
        call_ensures(login_failure_shown, (message,), shown),
    ensures
        !shown,
{
    reveal_strlit("二维码登录失败: ");
    reveal_strlit("登录已取消");
    reveal_strlit("二维码登录失败: 登录已取消");
    assert("二维码登录失败: "@ + "登录已取消"@ =~= "二维码登录失败: 登录已取消"@);
}

// ---------------------------------------------------------------------------
// The remote root
// ---------------------------------------------------------------------------

/// The id and the label of the whole drive.
pub open spec fn whole_drive() -> (Seq<char>, Seq<char>) {
    ("0"@, "全部文件"@)
}

/// The ids and names of the directories among some items, but for internal ones.
pub open spec fn directories(items: Seq<ItemView>) -> Seq<(Seq<char>, Seq<char>)>
    decreases items.len(),
{
    if items.len() == 0 {
        Seq::empty()
    } else {
        let before = directories(items.drop_last());
        let item = items.last();
        if item.is_directory && !internal_name(item.name) {
            before.push((item.id, item.name))
        } else {
            before
        }
    }
}

/// Whether one of the roots has this id.
pub open spec fn has_root(roots: Seq<(Seq<char>, Seq<char>)>, id: Seq<char>) -> bool {
    exists|i: int| 0 <= i < roots.len() && (#[trigger] roots[i]).0 == id
}

/// What can be mounted: the whole drive, and, once there is a session, each
/// directory at its top, and what is mounted now if it is none of these.
pub open spec fn remote_roots(config: ConfigView, items: Option<Seq<ItemView>>) -> Seq<
    (Seq<char>, Seq<char>),
> {
    if is_blank(config.cookie) {
        seq![whole_drive()]
    } else {
        let listed = seq![whole_drive()] + match items {
            Some(items) => directories(items),
            None => Seq::empty(),
        };
        if config.remote_root_id != "0"@ && !has_root(listed, config.remote_root_id) {
            listed.push((config.remote_root_id, config.remote_root_label))
        } else {
            listed
        }
    }
}

pub open spec fn listed_items(items: Option<Vec<RemoteItem>>) -> Option<Seq<ItemView>> {
    match items {
        Some(list) => Some(item_views(list@)),
        None => None,
    }
}

fn knows_root(roots: &Vec<(String, String)>, id: &str) -> (r: bool)
    ensures
        r == has_root(pairs(roots@), id@),
{
    let mut i: usize = 0;
    while i < roots.len()
        invariant
            i <= roots@.len(),
            forall|j: int| 0 <= j < i ==> (#[trigger] pairs(roots@)[j]).0 != id@,
        decreases roots@.len() - i,
    {
        assert(pairs(roots@)[i as int].0 == roots@[i as int].0@);
        if same_text(roots[i].0.as_str(), id) {
            return true;
        }
        i += 1;
    }
    false
}

/// What can be mounted, given the items at the top of the drive as far as they
/// could be listed.
pub fn load_remote_roots(config: &Config, items: Option<Vec<RemoteItem>>) -> (r: Vec<
    (String, String),
>)
    ensures
        pairs(r@) == remote_roots(config@, listed_items(items)),
{
    let mut roots: Vec<(String, String)> = Vec::new();
    roots.push((default_root_id(), default_root_label()));
    assert(pairs(roots@) =~= seq![whole_drive()]);
    if blank(config.cookie.as_str()) {
        return roots;
    }
    if let Some(list) = &items {
        let ghost views = item_views(list@);
        let mut i: usize = 0;
        assert(views.take(0) =~= Seq::empty());
        while i < list.len()
            invariant
                i <= list@.len(),
                views == item_views(list@),
                pairs(roots@) == seq![whole_drive()] + directories(views.take(i as int)),
            decreases list@.len() - i,
        {
            let item = &list[i];
            let ghost before = pairs(roots@);
            proof {
                assert(views.take(i + 1).drop_last() =~= views.take(i as int));
                assert(views.take(i + 1).last() == item@);
            }
            if item.is_directory && !is_internal_name(item.name.as_str()) {
                roots.push((item.id.clone(), item.name.clone()));
                assert(pairs(roots@) =~= before.push((item.id@, item.name@)));
            }
            assert(pairs(roots@) =~= seq![whole_drive()] + directories(views.take(i + 1)));
            i += 1;
        }
        assert(views.take(views.len() as int) =~= views);
    }
    let ghost listed = pairs(roots@);
    if !same_text(config.remote_root_id.as_str(), "0") && !knows_root(
        &roots,
        config.remote_root_id.as_str(),
    ) {
        roots.push((config.remote_root_id.clone(), config.remote_root_label.clone()));
        assert(pairs(roots@) =~= listed.push((config.remote_root_id@, config.remote_root_label@)));
    }
    roots
}

/// The labels of some roots.
pub open spec fn labels(roots: Seq<(Seq<char>, Seq<char>)>) -> Seq<Seq<char>> {
    roots.map_values(|root: (Seq<char>, Seq<char>)| root.1)
}

/// The labels of some roots, in their order.
pub fn root_labels(roots: &Vec<(String, String)>) -> (r: Vec<String>)
    ensures
        texts(r@) == labels(pairs(roots@)),
{
    let mut out: Vec<String> = Vec::new();
    let mut i: usize = 0;
    while i < roots.len()
        invariant
            i <= roots@.len(),
            out@.len() == i,
            forall|j: int| 0 <= j < i ==> (#[trigger] out@[j])@ == roots@[j].1@,
        decreases roots@.len() - i,
    {
        out.push(roots[i].1.clone());
        i += 1;
    }
    assert(texts(out@) =~= labels(pairs(roots@)));
    out
}

/// The place of the last root with this id, or the first place.
pub open spec fn root_position(roots: Seq<(Seq<char>, Seq<char>)>, id: Seq<char>) -> nat
    decreases roots.len(),
{
    if roots.len() == 0 {
        0
    } else if roots.last().0 == id {
        (roots.len() - 1) as nat
    } else {
        root_position(roots.drop_last(), id)
    }
}

/// The place of the root that is selected.
pub fn selected_root(roots: &Vec<(String, String)>, id: &str) -> (r: usize)
    ensures
        r == root_position(pairs(roots@), id@),
{
    let ghost views = pairs(roots@);
    let mut selected: usize = 0;
    let mut i: usize = 0;
    assert(views.take(0) =~= Seq::empty());
    while i < roots.len()
        invariant
            i <= roots@.len(),
            views == pairs(roots@),
            selected == root_position(views.take(i as int), id@),
        decreases roots@.len() - i,
    {
        proof {
            assert(views.take(i + 1).drop_last() =~= views.take(i as int));
            assert(views.take(i + 1).last() == views[i as int]);
        }
        if same_text(roots[i].0.as_str(), id) {
            selected = i;
        }
        i += 1;
    }
    assert(views.take(views.len() as int) =~= views);
    selected
}

proof fn lemma_root_position(roots: Seq<(Seq<char>, Seq<char>)>, id: Seq<char>)
    requires
        has_root(roots, id),
    ensures
        root_position(roots, id) < roots.len(),
        roots[root_position(roots, id) as int].0 == id,
    decreases roots.len(),
{
    if roots.last().0 != id {
        let i = choose|i: int| 0 <= i < roots.len() && (#[trigger] roots[i]).0 == id;
        assert(roots.drop_last()[i] == roots[i]);
        lemma_root_position(roots.drop_last(), id);
    }
}

/// Once there is a session, the root that is mounted is among those that can be
/// chosen, and it is the one that is selected, even where the drive cannot be
/// listed.
pub proof fn law_mounted_root_is_selected(config: ConfigView, items: Option<Seq<ItemView>>)
    requires
        !is_blank(config.cookie),
    ensures
        ({
            let roots = remote_roots(config, items);
            let position = root_position(roots, config.remote_root_id);
            position < roots.len() && roots[position as int].0 == config.remote_root_id
        }),
{
    let roots = remote_roots(config, items);
    let id = config.remote_root_id;
    let listed = seq![whole_drive()] + match items {
        Some(items) => directories(items),
        None => Seq::empty(),
    };
    assert(has_root(roots, id)) by {
        if id == "0"@ {
            assert(listed[0].0 == id);
            assert(roots[0] == listed[0]);
        } else if !has_root(listed, id) {
            assert(roots[listed.len() as int].0 == id);
        }
    }
    lemma_root_position(roots, id);
}

/// The whole drive can always be chosen, and comes first.
pub proof fn law_whole_drive_comes_first(config: ConfigView, items: Option<Seq<ItemView>>)
    ensures
        remote_roots(config, items).len() > 0,
        remote_roots(config, items)[0] == whole_drive(),
{
}

// ---------------------------------------------------------------------------
// Saving
// ---------------------------------------------------------------------------

/// Why the settings are not saved.
#[derive(Debug, PartialEq, Eq)]
pub enum SettingsError {
    /// The mount has no name.
    BlankName,
    /// The mount cannot be moved.
    Migration(MigrationError),
    /// There is no session.
    NotLoggedIn,
}

impl SettingsError {
    /// The line that is shown to the user.
    pub open spec fn text(self) -> Seq<char> {
        match self {
            SettingsError::BlankName => "资源管理器显示名称不能为空"@,
            SettingsError::Migration(e) => e.text(),
            SettingsError::NotLoggedIn => "请先点击“二维码登录”，使用夸克网盘 APP 扫码完成登录"@,
        }
    }

    /// The line that is shown to the user.
    pub fn message(&self) -> (r: String)
        ensures
            r@ == self.text(),
    {
        match self {
            SettingsError::BlankName => "资源管理器显示名称不能为空".to_owned(),
            SettingsError::Migration(e) => e.message(),
            SettingsError::NotLoggedIn =>
                "请先点击“二维码登录”，使用夸克网盘 APP 扫码完成登录".to_owned(),
        }
    }
}

/// What to do with settings that can be saved.
#[derive(Debug)]
pub enum SaveStep {
    /// Save them; the mount stays where it is.
    Save,
    /// Ask the user this first: the mount moves, and the old directory is deleted.
    AskFirst(String),
}

/// The question before the mount is moved.
pub open spec fn move_question(old_path: Seq<char>, new_path: Seq<char>) -> Seq<char> {
    "将把夸克网盘挂载位置从：\n"@ + old_path + "\n\n切换到：\n"@ + new_path
        + "\n\n旧挂载目录中的全部文件和文件夹会从本机删除，然后在新目录重新同步。云端文件不会被删除。\n\n是否继续？"@
}

/// Whether the settings can be saved, and what to ask before. What the file
/// system says of a move counts only where the mount moves.
pub fn save_and_restart(config: &Config, mount: &LocalPath, name: &str, facts: &MigrationFacts) -> (r:
    Result<SaveStep, SettingsError>)
    ensures
        if is_blank(name@) {
            r == Err::<SaveStep, SettingsError>(SettingsError::BlankName)
        } else if same_place(config.mount_path@, mount@) {
            r == Ok::<SaveStep, SettingsError>(SaveStep::Save)
        } else {
            match obstacle(config.mount_path, *mount, *facts) {
                Some(e) => r == Err::<SaveStep, SettingsError>(SettingsError::Migration(e)),
                None => r matches Ok(SaveStep::AskFirst(question)) && question@ == move_question(
                    config.mount_path.text@,
                    mount.text@,
                ),
            }
        },
{
    if blank(name) {
        return Err(SettingsError::BlankName);
    }
    if !mount_changed(&config.mount_path, mount) {
        return Ok(SaveStep::Save);
    }
    if let Err(e) = validate_mount_migration(&config.mount_path, mount, facts) {
        return Err(SettingsError::Migration(e));
    }
    let mut question = "将把夸克网盘挂载位置从：\n".to_owned();
    question.append(config.mount_path.text.as_str());
    question.append("\n\n切换到：\n");
    question.append(mount.text.as_str());
    question.append(
        "\n\n旧挂载目录中的全部文件和文件夹会从本机删除，然后在新目录重新同步。云端文件不会被删除。\n\n是否继续？",
    );
    Ok(SaveStep::AskFirst(question))
}

/// The configuration with other settings. A selection outside the list leaves the
/// remote root as it is.
pub open spec fn with_settings(
    config: ConfigView,
    mount: PathView,
    name: Seq<char>,
    roots: Seq<(Seq<char>, Seq<char>)>,
    selection: int,
    startup: bool,
) -> ConfigView {
    let chosen = if 0 <= selection < roots.len() {
        roots[selection]
    } else {
        (config.remote_root_id, config.remote_root_label)
    };
    ConfigView {
        mount_path: mount,
        remote_root_name: trimmed(name),
        remote_root_id: chosen.0,
        remote_root_label: chosen.1,
        start_on_login: startup,
        ..config
    }
}

/// The configuration with other settings, if there is a session.
pub fn apply_settings(
    config: &Config,
    mount: LocalPath,
    name: &str,
    roots: &Vec<(String, String)>,
    selection: isize,
    startup: bool,
) -> (r: Result<Config, SettingsError>)
    ensures
        if is_blank(config.cookie@) {
            r == Err::<Config, SettingsError>(SettingsError::NotLoggedIn)
        } else {
            r matches Ok(saved) && saved@ == with_settings(
                config@,
                mount@,
                name@,
                pairs(roots@),
                selection as int,
                startup,
            )
        },
{
    if blank(config.cookie.as_str()) {
        return Err(SettingsError::NotLoggedIn);
    }
    let mut saved = config.clone();
    saved.mount_path = mount;
    saved.remote_root_name = trim(name);
    if selection >= 0 {
        let position: usize = selection as usize;
        if position < roots.len() {
            let (id, label) = &roots[position];
            assert(pairs(roots@)[position as int] == (id@, label@));
            saved.remote_root_id = id.clone();
            saved.remote_root_label = label.clone();
        }
    }
    saved.start_on_login = startup;
    Ok(saved)
}

/// The command that starts the program with the user's session.
pub fn startup_command(executable: &str) -> (r: String)
    ensures
        r@ == "\""@ + executable@ + "\""@,
{
    concat3("\"", executable, "\"")
}

} // verus!
