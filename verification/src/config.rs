//! The user's configuration.

use crate::path::{ComponentView, LocalPath, PathView};
use crate::text::{blank, is_blank};
use vstd::prelude::*;

verus! {

/// The session, the account, and what is mounted where.
#[derive(Debug)]
pub struct Config {
    pub cookie: String,
    pub account_nickname: String,
    pub account_id: String,
    pub account_avatar: String,
    pub remote_root_id: String,
    pub remote_root_name: String,
    pub remote_root_label: String,
    pub start_on_login: bool,
    pub mount_path: LocalPath,
}

/// A [`Config`] with its texts as sequences of characters.
pub struct ConfigView {
    pub cookie: Seq<char>,
    pub account_nickname: Seq<char>,
    pub account_id: Seq<char>,
    pub account_avatar: Seq<char>,
    pub remote_root_id: Seq<char>,
    pub remote_root_name: Seq<char>,
    pub remote_root_label: Seq<char>,
    pub start_on_login: bool,
    pub mount_path: PathView,
}

impl View for Config {
    type V = ConfigView;

    open spec fn view(&self) -> ConfigView {
        ConfigView {
            cookie: self.cookie@,
            account_nickname: self.account_nickname@,
            account_id: self.account_id@,
            account_avatar: self.account_avatar@,
            remote_root_id: self.remote_root_id@,
            remote_root_name: self.remote_root_name@,
            remote_root_label: self.remote_root_label@,
            start_on_login: self.start_on_login,
            mount_path: self.mount_path@,
        }
    }
}

impl Clone for Config {
    fn clone(&self) -> (r: Config)
        ensures
            r@ == self@,
    {
        Config {
            cookie: self.cookie.clone(),
            account_nickname: self.account_nickname.clone(),
            account_id: self.account_id.clone(),
            account_avatar: self.account_avatar.clone(),
            remote_root_id: self.remote_root_id.clone(),
            remote_root_name: self.remote_root_name.clone(),
            remote_root_label: self.remote_root_label.clone(),
            start_on_login: self.start_on_login,
            mount_path: self.mount_path.clone(),
        }
    }
}

/// Why a configuration cannot be used.
#[derive(Debug, PartialEq, Eq)]
pub enum ConfigError {
    /// The file could not be read, or does not hold a configuration.
    Unreadable(String),
    /// There is no session.
    NotLoggedIn,
    /// The remote root has no id.
    EmptyRootId,
    /// The mount directory depends on a current directory.
    RelativeMount,
    /// The user has no directory for configurations.
    NoDirectory,
}

impl ConfigError {
    /// The line that is shown to the user.
    pub open spec fn text(self) -> Seq<char> {
        match self {
            ConfigError::Unreadable(reason) => reason@,
            ConfigError::NotLoggedIn =>
                "尚未登录夸克网盘：请打开设置页扫码登录，或使用兼容性的 login --cookie 命令"@,
            ConfigError::EmptyRootId => "远端根目录 ID 不能为空"@,
            ConfigError::RelativeMount => "挂载目录必须是绝对路径"@,
            ConfigError::NoDirectory => "无法确定当前用户的配置目录"@,
        }
    }

    /// The line that is shown to the user.
    pub fn message(&self) -> (r: String)
        ensures
            r@ == self.text(),
    {
        match self {
            ConfigError::Unreadable(reason) => reason.clone(),
            ConfigError::NotLoggedIn =>
                "尚未登录夸克网盘：请打开设置页扫码登录，或使用兼容性的 login --cookie 命令".to_owned(),
            ConfigError::EmptyRootId => "远端根目录 ID 不能为空".to_owned(),
            ConfigError::RelativeMount => "挂载目录必须是绝对路径".to_owned(),
            ConfigError::NoDirectory => "无法确定当前用户的配置目录".to_owned(),
        }
    }
}

// ---------------------------------------------------------------------------
// Defaults
// ---------------------------------------------------------------------------

/// The id of the drive's root.
pub fn default_root_id() -> (r: String)
    ensures
        r@ == "0"@,
{
    "0".to_owned()
}

/// The name of the mount in the file explorer.
pub fn default_root_name() -> (r: String)
    ensures
        r@ == "夸克网盘"@,
{
    "夸克网盘".to_owned()
}

/// The label of the drive's root.
pub fn default_root_label() -> (r: String)
    ensures
        r@ == "全部文件"@,
{
    "全部文件".to_owned()
}

/// Whether the program starts with the user's session.
pub fn default_start_on_login() -> (r: bool)
    ensures
        r,
{
    true
}

/// The configuration of a user who has given nothing but a session and a place.
pub open spec fn fresh_config(cookie: Seq<char>, mount: PathView) -> ConfigView {
    ConfigView {
        cookie,
        account_nickname: Seq::empty(),
        account_id: Seq::empty(),
        account_avatar: Seq::empty(),
        remote_root_id: "0"@,
        remote_root_name: "夸克网盘"@,
        remote_root_label: "全部文件"@,
        start_on_login: true,
        mount_path: mount,
    }
}

// ---------------------------------------------------------------------------
// Checking
// ---------------------------------------------------------------------------

impl ConfigView {
    /// What is wrong with the configuration: the first of the three faults that
    /// it has, in this order.
    pub open spec fn fault(self) -> Option<ConfigError> {
        if is_blank(self.cookie) {
            Some(ConfigError::NotLoggedIn)
        } else if is_blank(self.remote_root_id) {
            Some(ConfigError::EmptyRootId)
        } else if !self.mount_path.absolute {
            Some(ConfigError::RelativeMount)
        } else {
            None
        }
    }
}

impl Config {
    /// Checks that there is a session, a remote root and an absolute mount
    /// directory.
    pub fn validate(&self) -> (r: Result<(), ConfigError>)
        ensures
            match self@.fault() {
                Some(fault) => r == Err::<(), ConfigError>(fault),
                None => r is Ok,
            },
    {
        if blank(self.cookie.as_str()) {
            return Err(ConfigError::NotLoggedIn);
        }
        if blank(self.remote_root_id.as_str()) {
            return Err(ConfigError::EmptyRootId);
        }
        if !self.mount_path.absolute {
            return Err(ConfigError::RelativeMount);
        }
        Ok(())
    }

    /// The configuration that was read from a file, if it could be read and has
    /// no fault.
    pub fn load(read: Result<Config, ConfigError>) -> (r: Result<Config, ConfigError>)
        ensures
            match read {
                Ok(config) => match config@.fault() {
                    Some(fault) => r == Err::<Config, ConfigError>(fault),
                    None => r == Ok::<Config, ConfigError>(config),
                },
                Err(e) => r == Err::<Config, ConfigError>(e),
            },
    {
        match read {
            Ok(config) => match config.validate() {
                Ok(_) => Ok(config),
                Err(e) => Err(e),
            },
            Err(e) => Err(e),
        }
    }

    /// The configuration that the command line sets up.
    pub fn initial(cookie: String, mount: LocalPath, root_id: String, root_name: String) -> (r:
        Config)
        ensures
            r@ == (ConfigView {
                remote_root_id: root_id@,
                remote_root_name: root_name@,
                ..fresh_config(cookie@, mount@)
            }),
    {
        Config {
            cookie,
            account_nickname: String::new(),
            account_id: String::new(),
            account_avatar: String::new(),
            remote_root_id: root_id,
            remote_root_name: root_name,
            remote_root_label: default_root_label(),
            start_on_login: default_start_on_login(),
            mount_path: mount,
        }
    }

    /// The configuration of a user who has not logged in yet.
    pub fn logged_out(mount: LocalPath) -> (r: Config)
        ensures
            r@ == fresh_config(Seq::empty(), mount@),
    {
        Config::initial(String::new(), mount, default_root_id(), default_root_name())
    }
}

/// The configuration after a new session was given: the old one with another
/// cookie, or a fresh one, mounted where the user asked, or where it was, or at
/// the default place.
pub open spec fn with_session(
    existing: Option<ConfigView>,
    cookie: Seq<char>,
    requested: Option<PathView>,
    default_mount: PathView,
) -> ConfigView {
    let base = match existing {
        Some(old) => old,
        None => fresh_config(cookie, default_mount),
    };
    ConfigView {
        cookie,
        mount_path: match requested {
            Some(mount) => mount,
            None => base.mount_path,
        },
        ..base
    }
}

pub open spec fn option_config(c: Option<Config>) -> Option<ConfigView> {
    match c {
        Some(config) => Some(config@),
        None => None,
    }
}

pub open spec fn option_path(p: Option<LocalPath>) -> Option<PathView> {
    match p {
        Some(path) => Some(path@),
        None => None,
    }
}

/// The configuration after a new session was given.
pub fn save_cookie(
    existing: Option<Config>,
    cookie: String,
    requested_mount: Option<LocalPath>,
    default_mount: LocalPath,
) -> (r: Config)
    ensures
        r@ == with_session(
            option_config(existing),
            cookie@,
            option_path(requested_mount),
            default_mount@,
        ),
{
    let mut config = match existing {
        Some(old) => old,
        None => Config::logged_out(default_mount),
    };
    config.cookie = cookie;
    if let Some(mount) = requested_mount {
        config.mount_path = mount;
    }
    config
}

/// The place of the configuration in the user's directory for configurations.
pub open spec fn config_place(directory: PathView, separator: char) -> PathView {
    directory.child("QuarkDrive"@, separator).child("config.json"@, separator)
}

/// The place of the configuration, if the user has a directory for configurations.
/// The separator is the platform's.
pub fn default_config_path(config_directory: Option<LocalPath>, separator: char) -> (r: Result<
    LocalPath,
    ConfigError,
>)
    ensures
        match config_directory {
            Some(directory) => r matches Ok(path) && path@ == config_place(directory@, separator)
                && path@.absolute == directory@.absolute && path@.components
                == directory@.components + seq![
                ComponentView::Normal("QuarkDrive"@),
                ComponentView::Normal("config.json"@),
            ],
            None => r == Err::<LocalPath, ConfigError>(ConfigError::NoDirectory),
        },
{
    match config_directory {
        Some(directory) => {
            let path = directory.child("QuarkDrive", separator).child("config.json", separator);
            assert(path@.components =~= directory@.components + seq![
                ComponentView::Normal("QuarkDrive"@),
                ComponentView::Normal("config.json"@),
            ]);
            Ok(path)
        },
        None => Err(ConfigError::NoDirectory),
    }
}

// ---------------------------------------------------------------------------
// What stands in the file
// ---------------------------------------------------------------------------

/// A configuration as it stands in its file, where all but the mount directory may
/// be missing.
#[derive(Debug)]
pub struct ConfigRecord {
    pub cookie: Option<String>,
    pub account_nickname: Option<String>,
    pub account_id: Option<String>,
    pub account_avatar: Option<String>,
    pub remote_root_id: Option<String>,
    pub remote_root_name: Option<String>,
    pub remote_root_label: Option<String>,
    pub start_on_login: Option<bool>,
    pub mount_path: LocalPath,
}

/// The text that stands there, or another.
pub open spec fn text_or(text: Option<String>, otherwise: Seq<char>) -> Seq<char> {
    match text {
        Some(s) => s@,
        None => otherwise,
    }
}

/// The configuration that a record stands for: what is missing is as in a fresh
/// one.
pub open spec fn recorded(record: ConfigRecord) -> ConfigView {
    let fresh = fresh_config(Seq::empty(), record.mount_path@);
    ConfigView {
        cookie: text_or(record.cookie, fresh.cookie),
        account_nickname: text_or(record.account_nickname, fresh.account_nickname),
        account_id: text_or(record.account_id, fresh.account_id),
        account_avatar: text_or(record.account_avatar, fresh.account_avatar),
        remote_root_id: text_or(record.remote_root_id, fresh.remote_root_id),
        remote_root_name: text_or(record.remote_root_name, fresh.remote_root_name),
        remote_root_label: text_or(record.remote_root_label, fresh.remote_root_label),
        start_on_login: match record.start_on_login {
            Some(b) => b,
            None => fresh.start_on_login,
        },
        mount_path: record.mount_path@,
    }
}

fn text_or_empty(text: Option<String>) -> (r: String)
    ensures
        r@ == text_or(text, Seq::empty()),
{
    match text {
        Some(s) => s,
        None => String::new(),
    }
}

impl ConfigRecord {
    /// The configuration that the record stands for.
    pub fn into_config(self) -> (r: Config)
        ensures
            r@ == recorded(self),
    {
        Config {
            cookie: text_or_empty(self.cookie),
            account_nickname: text_or_empty(self.account_nickname),
            account_id: text_or_empty(self.account_id),
            account_avatar: text_or_empty(self.account_avatar),
            remote_root_id: match self.remote_root_id {
                Some(s) => s,
                None => default_root_id(),
            },
            remote_root_name: match self.remote_root_name {
                Some(s) => s,
                None => default_root_name(),
            },
            remote_root_label: match self.remote_root_label {
                Some(s) => s,
                None => default_root_label(),
            },
            start_on_login: match self.start_on_login {
                Some(b) => b,
                None => default_start_on_login(),
            },
            mount_path: self.mount_path,
        }
    }
}

/// What stands there is this text.
pub open spec fn is_text(text: Option<String>, s: Seq<char>) -> bool {
    text matches Some(t) && t@ == s
}

/// A record holds a configuration, with nothing missing.
pub open spec fn holds(record: ConfigRecord, config: ConfigView) -> bool {
    &&& is_text(record.cookie, config.cookie)
    &&& is_text(record.account_nickname, config.account_nickname)
    &&& is_text(record.account_id, config.account_id)
    &&& is_text(record.account_avatar, config.account_avatar)
    &&& is_text(record.remote_root_id, config.remote_root_id)
    &&& is_text(record.remote_root_name, config.remote_root_name)
    &&& is_text(record.remote_root_label, config.remote_root_label)
    &&& record.start_on_login == Some(config.start_on_login)
    &&& record.mount_path@ == config.mount_path
}

impl Config {
    /// The record of the configuration that is written to its file, unless it has
    /// a fault.
    pub fn save(&self) -> (r: Result<ConfigRecord, ConfigError>)
        ensures
            match self@.fault() {
                Some(fault) => r == Err::<ConfigRecord, ConfigError>(fault),
                None => r matches Ok(record) && holds(record, self@),
            },
    {
        match self.validate() {
            Ok(_) => {},
            Err(e) => {
                return Err(e);
            },
        }
        Ok(
            ConfigRecord {
                cookie: Some(self.cookie.clone()),
                account_nickname: Some(self.account_nickname.clone()),
                account_id: Some(self.account_id.clone()),
                account_avatar: Some(self.account_avatar.clone()),
                remote_root_id: Some(self.remote_root_id.clone()),
                remote_root_name: Some(self.remote_root_name.clone()),
                remote_root_label: Some(self.remote_root_label.clone()),
                start_on_login: Some(self.start_on_login),
                mount_path: self.mount_path.clone(),
            },
        )
    }
}

/// The record of a configuration stands for that configuration: all nine fields
/// come back.
pub proof fn law_record_gives_the_configuration_back(record: ConfigRecord, config: ConfigView)
    requires
        holds(record, config),
    ensures
        recorded(record) == config,
{
}

/// A configuration that was saved loads again, with all nine fields as they were,
/// where the file still holds the record that was written.
pub proof fn law_saved_configuration_loads(
    config: Config,
    record: ConfigRecord,
    found: ConfigRecord,
    read: Config,
    loaded: Result<Config, ConfigError>,
)
    requires
        call_ensures(Config::save, (&config,), Ok::<ConfigRecord, ConfigError>(record)),
        recorded(found) == recorded(record),
        call_ensures(ConfigRecord::into_config, (found,), read),
        call_ensures(Config::load, (Ok::<Config, ConfigError>(read),), loaded),
    ensures
        loaded matches Ok(d) && d@ == config@,
{
    law_record_gives_the_configuration_back(record, config@);
}

/// A configuration that passes the check is loaded as it is, so checking before
/// a file is written is enough for reading it back.
pub proof fn law_checked_config_loads(config: Config, r: Result<Config, ConfigError>)
    requires
        config@.fault() is None,
        call_ensures(Config::load, (Ok::<Config, ConfigError>(config),), r),
    ensures
        r == Ok::<Config, ConfigError>(config),
{
}

/// A configuration can be used exactly where there is a session, a remote root, and
/// a mount directory that depends on no other; and each fault is told by its name.
pub proof fn law_configuration_is_checked(config: Config, r: Result<(), ConfigError>)
    requires
        call_ensures(Config::validate, (&config,), r),
    ensures
        r is Ok <==> !is_blank(config.cookie@) && !is_blank(config.remote_root_id@)
            && config.mount_path.absolute,
        is_blank(config.cookie@) ==> r == Err::<(), ConfigError>(ConfigError::NotLoggedIn),
        !is_blank(config.cookie@) && is_blank(config.remote_root_id@) ==> r == Err::<
            (),
            ConfigError,
        >(ConfigError::EmptyRootId),
        !is_blank(config.cookie@) && !is_blank(config.remote_root_id@)
            && !config.mount_path.absolute ==> r == Err::<(), ConfigError>(
            ConfigError::RelativeMount,
        ),
{
}

/// The command line sets up the session, the mount and the root that were given, and
/// nothing of an account.
pub proof fn law_command_line_sets_up_what_was_given(
    cookie: String,
    mount: LocalPath,
    root_id: String,
    root_name: String,
    r: Config,
)
    requires
        call_ensures(Config::initial, (cookie, mount, root_id, root_name), r),
    ensures
        r.cookie@ == cookie@,
        r.mount_path@ == mount@,
        r.remote_root_id@ == root_id@,
        r.remote_root_name@ == root_name@,
        r.remote_root_label@ == "全部文件"@,
        r.start_on_login,
        r.account_nickname@.len() == 0,
        r.account_id@.len() == 0,
        r.account_avatar@.len() == 0,
{
}

/// A new session changes the cookie. Where there was a configuration, nothing else
/// of it changes but the mount, and that only where the user asked for it.
pub proof fn law_new_session_keeps_the_rest(
    existing: Option<Config>,
    cookie: String,
    requested: Option<LocalPath>,
    default_mount: LocalPath,
    r: Config,
)
    requires
        call_ensures(save_cookie, (existing, cookie, requested, default_mount), r),
    ensures
        r.cookie@ == cookie@,
        requested matches Some(mount) ==> r.mount_path@ == mount@,
        requested is None && existing is None ==> r.mount_path@ == default_mount@,
        requested is None && existing is Some ==> r.mount_path@ == existing->0.mount_path@,
        existing matches Some(old) ==> {
            &&& r.account_nickname@ == old.account_nickname@
            &&& r.account_id@ == old.account_id@
            &&& r.account_avatar@ == old.account_avatar@
            &&& r.remote_root_id@ == old.remote_root_id@
            &&& r.remote_root_name@ == old.remote_root_name@
            &&& r.remote_root_label@ == old.remote_root_label@
            &&& r.start_on_login == old.start_on_login
        },
        existing is None ==> {
            &&& r.account_nickname@.len() == 0
            &&& r.account_id@.len() == 0
            &&& r.account_avatar@.len() == 0
            &&& r.remote_root_id@ == "0"@
            &&& r.remote_root_name@ == "夸克网盘"@
            &&& r.remote_root_label@ == "全部文件"@
            &&& r.start_on_login
        },
{
}

/// What stands in the file is what the configuration has, field by field; and what
/// is missing has its default.
pub proof fn law_file_gives_each_field(record: ConfigRecord, r: Config)
    requires
        call_ensures(ConfigRecord::into_config, (record,), r),
    ensures
        record.cookie matches Some(s) ==> r.cookie@ == s@,
        record.account_nickname matches Some(s) ==> r.account_nickname@ == s@,
        record.account_id matches Some(s) ==> r.account_id@ == s@,
        record.account_avatar matches Some(s) ==> r.account_avatar@ == s@,
        record.remote_root_id matches Some(s) ==> r.remote_root_id@ == s@,
        record.remote_root_name matches Some(s) ==> r.remote_root_name@ == s@,
        record.remote_root_label matches Some(s) ==> r.remote_root_label@ == s@,
        record.start_on_login matches Some(b) ==> r.start_on_login == b,
        r.mount_path@ == record.mount_path@,
        record.cookie is None ==> r.cookie@.len() == 0,
        record.account_nickname is None ==> r.account_nickname@.len() == 0,
        record.account_id is None ==> r.account_id@.len() == 0,
        record.account_avatar is None ==> r.account_avatar@.len() == 0,
        record.remote_root_id is None ==> r.remote_root_id@ == "0"@,
        record.remote_root_name is None ==> r.remote_root_name@ == "夸克网盘"@,
        record.remote_root_label is None ==> r.remote_root_label@ == "全部文件"@,
        record.start_on_login is None ==> r.start_on_login,
{
}

/// What is written to the file is what the configuration has, field by field; and it
/// is written exactly where the configuration can be used.
pub proof fn law_each_field_is_written(config: Config, r: Result<ConfigRecord, ConfigError>)
    requires
        call_ensures(Config::save, (&config,), r),
    ensures
        r is Ok <==> !is_blank(config.cookie@) && !is_blank(config.remote_root_id@)
            && config.mount_path.absolute,
        r matches Ok(record) ==> {
            &&& record.cookie is Some && record.cookie->0@ == config.cookie@
            &&& record.account_nickname is Some && record.account_nickname->0@
                == config.account_nickname@
            &&& record.account_id is Some && record.account_id->0@ == config.account_id@
            &&& record.account_avatar is Some && record.account_avatar->0@ == config.account_avatar@
            &&& record.remote_root_id is Some && record.remote_root_id->0@ == config.remote_root_id@
            &&& record.remote_root_name is Some && record.remote_root_name->0@
                == config.remote_root_name@
            &&& record.remote_root_label is Some && record.remote_root_label->0@
                == config.remote_root_label@
            &&& record.start_on_login == Some(config.start_on_login)
            &&& record.mount_path@ == config.mount_path@
        },
{
}

/// The configuration lies in a directory of the program's own, below the user's
/// directory for configurations.
pub proof fn law_configuration_lies_below_its_directory(
    directory: LocalPath,
    separator: char,
    r: Result<LocalPath, ConfigError>,
)
    requires
        call_ensures(default_config_path, (Some(directory), separator), r),
    ensures
        r is Ok,
        r->Ok_0@.descends(directory@),
        r->Ok_0@.absolute == directory@.absolute,
        r->Ok_0@.components.len() == directory@.components.len() + 2,
        r->Ok_0@.components.last() == ComponentView::Normal("config.json"@),
{
    let names = seq![
        ComponentView::Normal("QuarkDrive"@),
        ComponentView::Normal("config.json"@),
    ];
    crate::path::law_descent(r->Ok_0@, directory@, directory@, names);
}

/// What could not be read is not loaded, for the reason why it could not be read; and
/// what was read is loaded as it is wherever it can be used.
pub proof fn law_usable_configurations_load(
    read: Result<Config, ConfigError>,
    r: Result<Config, ConfigError>,
)
    requires
        call_ensures(Config::load, (read,), r),
    ensures
        read matches Err(e) ==> r == Err::<Config, ConfigError>(e),
        read matches Ok(config) ==> {
            &&& r is Ok <==> !is_blank(config.cookie@) && !is_blank(config.remote_root_id@)
                && config.mount_path.absolute
            &&& r is Ok ==> r->Ok_0 == config
        },
{
}

} // verus!
