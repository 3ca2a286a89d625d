//! The controls of the settings window and of the login window.

use super::command::{
    meaning, ID_CANCEL, ID_LOGIN, ID_LOG_CLEAR, ID_LOG_REFRESH, ID_NAME, ID_OPEN_FOLDER,
    ID_PATH, ID_QR_CANCEL, ID_REMOTE_ROOT, ID_SAVE, ID_STARTUP, ID_STORAGE_RELEASE, ID_STORAGE_SCAN,
    ID_TAB_LOG, ID_TAB_SETTINGS,
};
use super::settings::{
    account_detail, account_detail_line, account_line, account_text, labels, root_labels,
    root_position, selected_root,
};
use crate::config::{Config, ConfigView};
use crate::quark::request::pairs;
use crate::text::texts;
use vstd::prelude::*;

verus! {

/// The width and height of the settings window.
pub const WINDOW_WIDTH: i32 = 720;

pub const WINDOW_HEIGHT: i32 = 862;

/// What a control is.
#[derive(Clone, Copy, Debug, PartialEq, Eq, Structural)]
pub enum ControlKind {
    Label,
    Icon,
    Group,
    Button,
    /// The button that the enter key presses.
    DefaultButton,
    CheckBox,
    /// A line of text that can be changed.
    Edit,
    /// One of several lines can be chosen.
    Choice,
    /// Any number of several lines can be chosen.
    List,
    /// Lines of text that can only be read.
    LogText,
}

/// What a control is for, where the program comes back to it.
#[derive(Clone, Copy, Debug, PartialEq, Eq, Structural)]
pub enum Role {
    Plain,
    AccountIcon,
    AccountStatus,
    AccountDetail,
    LoginButton,
    RootChoice,
    PathEdit,
    NameEdit,
    StartupCheck,
    StorageStatus,
    StorageDetail,
    StorageList,
    StorageScan,
    StorageRelease,
    OpenFolder,
    Save,
    Cancel,
    LogText,
    LogRefresh,
    LogClear,
    LoginStatus,
    LoginCancel,
}

/// A control of a window.
#[derive(Debug)]
pub struct Control {
    pub role: Role,
    pub kind: ControlKind,
    pub text: String,
    pub x: i32,
    pub y: i32,
    pub width: i32,
    pub height: i32,
    /// The number that its messages carry, or 0.
    pub id: usize,
    /// Whether it is checked.
    pub checked: bool,
    /// The lines that can be chosen.
    pub lines: Vec<String>,
    /// The place of the line that is chosen.
    pub selected: usize,
}

/// A [`Control`] with its texts as sequences of characters.
pub struct ControlView {
    pub role: Role,
    pub kind: ControlKind,
    pub text: Seq<char>,
    pub x: i32,
    pub y: i32,
    pub width: i32,
    pub height: i32,
    pub id: usize,
    pub checked: bool,
    pub lines: Seq<Seq<char>>,
    pub selected: nat,
}

impl View for Control {
    type V = ControlView;

    open spec fn view(&self) -> ControlView {
        ControlView {
            role: self.role,
            kind: self.kind,
            text: self.text@,
            x: self.x,
            y: self.y,
            width: self.width,
            height: self.height,
            id: self.id,
            checked: self.checked,
            lines: texts(self.lines@),
            selected: self.selected as nat,
        }
    }
}

/// The views of some controls.
pub open spec fn control_views(controls: Seq<Control>) -> Seq<ControlView> {
    controls.map_values(|c: Control| c@)
}

/// A control that is not checked, and has no lines.
pub open spec fn control(
    role: Role,
    kind: ControlKind,
    text: Seq<char>,
    place: (i32, i32),
    size: (i32, i32),
    id: usize,
) -> ControlView {
    ControlView {
        role,
        kind,
        text,
        x: place.0,
        y: place.1,
        width: size.0,
        height: size.1,
        id,
        checked: false,
        lines: Seq::empty(),
        selected: 0,
    }
}

fn put(
    controls: &mut Vec<Control>,
    role: Role,
    kind: ControlKind,
    text: &str,
    place: (i32, i32),
    size: (i32, i32),
    id: usize,
)
    ensures
        control_views(final(controls)@) == control_views(old(controls)@).push(
            control(role, kind, text@, place, size, id),
        ),
{
    controls.push(
        Control {
            role,
            kind,
            text: text.to_owned(),
            x: place.0,
            y: place.1,
            width: size.0,
            height: size.1,
            id,
            checked: false,
            lines: Vec::new(),
            selected: 0,
        },
    );
    let ghost made = controls@.last();
    assert(texts(made.lines@) =~= Seq::empty());
    assert(control_views(controls@) =~= control_views(old(controls)@).push(
        control(role, kind, text@, place, size, id),
    ));
}

/// The box that is checked where the program starts with the user's session.
pub open spec fn startup_box(start_on_login: bool) -> ControlView {
    ControlView {
        checked: start_on_login,
        ..control(
            Role::StartupCheck,
            ControlKind::CheckBox,
            "登录 Windows 后自动启动"@,
            (164, 452),
            (250, 28),
            ID_STARTUP,
        )
    }
}

/// The choice of the remote root: the labels of all roots, with the one that is
/// mounted chosen.
pub open spec fn root_choice(roots: Seq<(Seq<char>, Seq<char>)>, id: Seq<char>) -> ControlView {
    ControlView {
        lines: labels(roots),
        selected: root_position(roots, id),
        ..control(
            Role::RootChoice,
            ControlKind::Choice,
            ""@,
            (164, 246),
            (486, 180),
            ID_REMOTE_ROOT,
        )
    }
}

fn put_box(controls: &mut Vec<Control>, start_on_login: bool)
    ensures
        control_views(final(controls)@) == control_views(old(controls)@).push(
            startup_box(start_on_login),
        ),
{
    controls.push(
        Control {
            role: Role::StartupCheck,
            kind: ControlKind::CheckBox,
            text: "登录 Windows 后自动启动".to_owned(),
            x: 164,
            y: 452,
            width: 250,
            height: 28,
            id: ID_STARTUP,
            checked: start_on_login,
            lines: Vec::new(),
            selected: 0,
        },
    );
    let ghost made = controls@.last();
    assert(texts(made.lines@) =~= Seq::empty());
    assert(control_views(controls@) =~= control_views(old(controls)@).push(
        startup_box(start_on_login),
    ));
}

fn put_choice(controls: &mut Vec<Control>, lines: Vec<String>, selected: usize)
    ensures
        control_views(final(controls)@) == control_views(old(controls)@).push(
            (ControlView {
                lines: texts(lines@),
                selected: selected as nat,
                ..root_choice(Seq::empty(), Seq::empty())
            }),
        ),
{
    controls.push(
        Control {
            role: Role::RootChoice,
            kind: ControlKind::Choice,
            text: "".to_owned(),
            x: 164,
            y: 246,
            width: 486,
            height: 180,
            id: ID_REMOTE_ROOT,
            checked: false,
            lines,
            selected,
        },
    );
    assert(control_views(controls@) =~= control_views(old(controls)@).push(controls@.last()@));
}

/// The controls of the settings window, in the order in which they are made.
pub open spec fn settings_layout(
    config: ConfigView,
    roots: Seq<(Seq<char>, Seq<char>)>,
) -> Seq<ControlView> {
    seq![
        control(Role::Plain, ControlKind::Label, "夸克网盘"@, (28, 20), (210, 30), 0),
        control(Role::Plain, ControlKind::Button, "设置"@, (494, 20), (78, 30), ID_TAB_SETTINGS),
        control(Role::Plain, ControlKind::Button, "日志"@, (580, 20), (78, 30), ID_TAB_LOG),
        control(Role::Plain, ControlKind::Label, "挂载与账号设置"@, (28, 51), (240, 22), 0),
        control(Role::Plain, ControlKind::Group, "夸克账号"@, (24, 88), (654, 112), 0),
        control(Role::AccountIcon, ControlKind::Icon, ""@, (48, 120), (48, 48), 0),
        control(Role::AccountStatus, ControlKind::Label, account_line(config), (112, 120), (400, 24), 0),
        control(Role::AccountDetail, ControlKind::Label, account_detail_line(config), (112, 148), (420, 22), 0),
        control(Role::LoginButton, ControlKind::Button, "二维码登录"@, (542, 130), (108, 34), ID_LOGIN),
        control(Role::Plain, ControlKind::Group, "云端挂载范围"@, (24, 214), (654, 104), 0),
        control(Role::Plain, ControlKind::Label, "云盘根目录"@, (48, 250), (100, 24), 0),
        root_choice(roots, config.remote_root_id),
        control(Role::Plain, ControlKind::Group, "Windows 挂载"@, (24, 332), (654, 168), 0),
        control(Role::Plain, ControlKind::Label, "挂载位置"@, (48, 370), (100, 24), 0),
        control(Role::PathEdit, ControlKind::Edit, config.mount_path.text, (164, 366), (486, 27), ID_PATH),
        control(Role::Plain, ControlKind::Label, "显示名称"@, (48, 414), (100, 24), 0),
        control(Role::NameEdit, ControlKind::Edit, config.remote_root_name, (164, 410), (486, 27), ID_NAME),
        startup_box(config.start_on_login),
        control(Role::Plain, ControlKind::Group, "本地空间"@, (24, 514), (654, 236), 0),
        control(Role::StorageStatus, ControlKind::Label, "正在检测本地文件容量…"@, (48, 548), (600, 24), 0),
        control(Role::StorageDetail, ControlKind::Label, "仅统计已下载到本机的网盘文件"@, (48, 704), (390, 22), 0),
        control(Role::StorageList, ControlKind::List, ""@, (48, 578), (602, 116), 0),
        control(Role::StorageScan, ControlKind::Button, "重新检测"@, (48, 738), (94, 34), ID_STORAGE_SCAN),
        control(Role::StorageRelease, ControlKind::Button, "释放空间"@, (154, 738), (100, 34), ID_STORAGE_RELEASE),
        control(Role::OpenFolder, ControlKind::Button, "打开网盘"@, (24, 774), (100, 32), ID_OPEN_FOLDER),
        control(Role::Save, ControlKind::DefaultButton, "保存并重启"@, (436, 774), (112, 32), ID_SAVE),
        control(Role::Cancel, ControlKind::Button, "取消"@, (562, 774), (100, 32), ID_CANCEL),
        control(Role::LogText, ControlKind::LogText, ""@, (24, 88), (654, 654), 0),
        control(Role::LogRefresh, ControlKind::Button, "刷新日志"@, (436, 774), (112, 32), ID_LOG_REFRESH),
        control(Role::LogClear, ControlKind::Button, "清理日志"@, (562, 774), (100, 32), ID_LOG_CLEAR),
    ]
}

/// The controls of the settings window, in the order in which they are made, where
/// these remote roots can be mounted.
pub fn create_controls(config: &Config, roots: &Vec<(String, String)>) -> (r: Vec<Control>)
    ensures
        control_views(r@) == settings_layout(config@, pairs(roots@)),
{
    let mut c: Vec<Control> = Vec::new();
    assert(control_views(c@) =~= Seq::empty());
    put(&mut c, Role::Plain, ControlKind::Label, "夸克网盘", (28, 20), (210, 30), 0);
    put(&mut c, Role::Plain, ControlKind::Button, "设置", (494, 20), (78, 30), ID_TAB_SETTINGS);
    put(&mut c, Role::Plain, ControlKind::Button, "日志", (580, 20), (78, 30), ID_TAB_LOG);
    put(&mut c, Role::Plain, ControlKind::Label, "挂载与账号设置", (28, 51), (240, 22), 0);
    put(&mut c, Role::Plain, ControlKind::Group, "夸克账号", (24, 88), (654, 112), 0);
    put(&mut c, Role::AccountIcon, ControlKind::Icon, "", (48, 120), (48, 48), 0);
    put(&mut c, Role::AccountStatus, ControlKind::Label, account_text(config).as_str(), (112, 120), (400, 24), 0);
    put(&mut c, Role::AccountDetail, ControlKind::Label, account_detail(config).as_str(), (112, 148), (420, 22), 0);
    put(&mut c, Role::LoginButton, ControlKind::Button, "二维码登录", (542, 130), (108, 34), ID_LOGIN);
    put(&mut c, Role::Plain, ControlKind::Group, "云端挂载范围", (24, 214), (654, 104), 0);
    put(&mut c, Role::Plain, ControlKind::Label, "云盘根目录", (48, 250), (100, 24), 0);
    let lines = root_labels(roots);
    let selected = selected_root(roots, config.remote_root_id.as_str());
    put_choice(&mut c, lines, selected);
    put(&mut c, Role::Plain, ControlKind::Group, "Windows 挂载", (24, 332), (654, 168), 0);
    put(&mut c, Role::Plain, ControlKind::Label, "挂载位置", (48, 370), (100, 24), 0);
    put(&mut c, Role::PathEdit, ControlKind::Edit, config.mount_path.text.as_str(), (164, 366), (486, 27), ID_PATH);
    put(&mut c, Role::Plain, ControlKind::Label, "显示名称", (48, 414), (100, 24), 0);
    put(&mut c, Role::NameEdit, ControlKind::Edit, config.remote_root_name.as_str(), (164, 410), (486, 27), ID_NAME);
    put_box(&mut c, config.start_on_login);
    put(&mut c, Role::Plain, ControlKind::Group, "本地空间", (24, 514), (654, 236), 0);
    put(&mut c, Role::StorageStatus, ControlKind::Label, "正在检测本地文件容量…", (48, 548), (600, 24), 0);
    put(&mut c, Role::StorageDetail, ControlKind::Label, "仅统计已下载到本机的网盘文件", (48, 704), (390, 22), 0);
    put(&mut c, Role::StorageList, ControlKind::List, "", (48, 578), (602, 116), 0);
    put(&mut c, Role::StorageScan, ControlKind::Button, "重新检测", (48, 738), (94, 34), ID_STORAGE_SCAN);
    put(&mut c, Role::StorageRelease, ControlKind::Button, "释放空间", (154, 738), (100, 34), ID_STORAGE_RELEASE);
    put(&mut c, Role::OpenFolder, ControlKind::Button, "打开网盘", (24, 774), (100, 32), ID_OPEN_FOLDER);
    put(&mut c, Role::Save, ControlKind::DefaultButton, "保存并重启", (436, 774), (112, 32), ID_SAVE);
    put(&mut c, Role::Cancel, ControlKind::Button, "取消", (562, 774), (100, 32), ID_CANCEL);
    put(&mut c, Role::LogText, ControlKind::LogText, "", (24, 88), (654, 654), 0);
    put(&mut c, Role::LogRefresh, ControlKind::Button, "刷新日志", (436, 774), (112, 32), ID_LOG_REFRESH);
    put(&mut c, Role::LogClear, ControlKind::Button, "清理日志", (562, 774), (100, 32), ID_LOG_CLEAR);
    assert(control_views(c@) =~= settings_layout(config@, pairs(roots@)));
    c
}

/// The controls of the login window.
pub open spec fn login_layout() -> Seq<ControlView> {
    seq![
        control(Role::LoginStatus, ControlKind::Label, "正在获取二维码…"@, (44, 24), (610, 48), 0),
        control(
            Role::LoginCancel,
            ControlKind::Button,
            "取消登录"@,
            (300, 730),
            (120, 34),
            ID_QR_CANCEL,
        ),
    ]
}

/// The controls of the login window.
pub fn create_qr_controls() -> (r: Vec<Control>)
    ensures
        control_views(r@) == login_layout(),
{
    let mut c: Vec<Control> = Vec::new();
    assert(control_views(c@) =~= Seq::empty());
    put(&mut c, Role::LoginStatus, ControlKind::Label, "正在获取二维码…", (44, 24), (610, 48), 0);
    put(
        &mut c,
        Role::LoginCancel,
        ControlKind::Button,
        "取消登录",
        (300, 730),
        (120, 34),
        ID_QR_CANCEL,
    );
    assert(control_views(c@) =~= login_layout());
    c
}

// ---------------------------------------------------------------------------
// The two tabs
// ---------------------------------------------------------------------------

/// The part of the window that a control belongs to.
#[derive(Clone, Copy, Debug, PartialEq, Eq, Structural)]
pub enum Tab {
    Settings,
    Log,
    /// It is always there.
    Both,
}

/// The part of the window that a control belongs to, going by what it is for.
pub open spec fn tab_of(role: Role) -> Tab {
    match role {
        Role::LogText | Role::LogRefresh | Role::LogClear => Tab::Log,
        Role::Plain | Role::AccountIcon | Role::LoginStatus | Role::LoginCancel => Tab::Both,
        _ => Tab::Settings,
    }
}

/// Whether a control is shown on a tab.
pub open spec fn shown_on(role: Role, log_tab: bool) -> bool {
    match tab_of(role) {
        Tab::Settings => !log_tab,
        Tab::Log => log_tab,
        Tab::Both => true,
    }
}

/// Whether a control is shown on a tab.
pub fn set_tab(role: Role, log_tab: bool) -> (r: bool)
    ensures
        r == shown_on(role, log_tab),
{
    match role {
        Role::LogText | Role::LogRefresh | Role::LogClear => log_tab,
        Role::Plain | Role::AccountIcon | Role::LoginStatus | Role::LoginCancel => true,
        _ => !log_tab,
    }
}

// ---------------------------------------------------------------------------
// Laws
// ---------------------------------------------------------------------------

/// Every control lies within the window.
pub proof fn law_controls_fit_the_window(config: ConfigView, roots: Seq<(Seq<char>, Seq<char>)>, i: int)
    requires
        0 <= i < settings_layout(config, roots).len(),
    ensures
        ({
            let c = settings_layout(config, roots)[i];
            &&& 0 <= c.x && 0 < c.width && c.x + c.width <= WINDOW_WIDTH
            &&& 0 <= c.y && 0 < c.height && c.y + c.height <= WINDOW_HEIGHT
        }),
{
}

/// Every button does something, and no two of them do the same.
pub proof fn law_every_button_has_its_own_meaning(config: ConfigView, roots: Seq<(Seq<char>, Seq<char>)>, i: int, j: int)
    requires
        0 <= i < j < settings_layout(config, roots).len(),
        settings_layout(config, roots)[i].kind is Button || settings_layout(config, roots)[i].kind is DefaultButton,
        settings_layout(config, roots)[j].kind is Button || settings_layout(config, roots)[j].kind is DefaultButton,
    ensures
        meaning(settings_layout(config, roots)[i].id as int) is Some,
        meaning(settings_layout(config, roots)[i].id as int) != meaning(
            settings_layout(config, roots)[j].id as int,
        ),
{
}

/// On neither tab do two buttons take the same place: those of the log take the
/// places of others while these are hidden.
pub proof fn law_buttons_do_not_overlap(config: ConfigView, roots: Seq<(Seq<char>, Seq<char>)>, log_tab: bool, i: int, j: int)
    requires
        0 <= i < j < settings_layout(config, roots).len(),
        settings_layout(config, roots)[i].kind is Button || settings_layout(config, roots)[i].kind is DefaultButton,
        settings_layout(config, roots)[j].kind is Button || settings_layout(config, roots)[j].kind is DefaultButton,
        shown_on(settings_layout(config, roots)[i].role, log_tab),
        shown_on(settings_layout(config, roots)[j].role, log_tab),
    ensures
        ({
            let a = settings_layout(config, roots)[i];
            let b = settings_layout(config, roots)[j];
            a.x + a.width <= b.x || b.x + b.width <= a.x || a.y + a.height <= b.y || b.y + b.height
                <= a.y
        }),
{
}

/// The startup box is checked exactly where the program starts with the user's
/// session, and the root choice lists every root by its label, with one of them
/// chosen wherever there is one.
pub proof fn law_choices_show_the_configuration(
    config: ConfigView,
    roots: Seq<(Seq<char>, Seq<char>)>,
    i: int,
)
    requires
        0 <= i < settings_layout(config, roots).len(),
    ensures
        ({
            let c = settings_layout(config, roots)[i];
            &&& c.role is StartupCheck ==> c.checked == config.start_on_login
            &&& !(c.role is StartupCheck) ==> !c.checked
            &&& c.role is RootChoice ==> c.lines == labels(roots) && (roots.len() > 0 ==> c.selected
                < c.lines.len())
        }),
{
    if roots.len() > 0 {
        lemma_position_in_list(roots, config.remote_root_id);
    }
}

proof fn lemma_position_in_list(roots: Seq<(Seq<char>, Seq<char>)>, id: Seq<char>)
    requires
        roots.len() > 0,
    ensures
        root_position(roots, id) < roots.len(),
    decreases roots.len(),
{
    if roots.len() > 1 {
        lemma_position_in_list(roots.drop_last(), id);
    } else {
        reveal_with_fuel(root_position, 2);
    }
}

} // verus!
