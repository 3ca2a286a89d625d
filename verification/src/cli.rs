//! The command line: what it asks for, and what is printed.

use crate::cloud_files::root::{registration_status, RegistrationStatus};
use crate::cloud_files::storage::LocalStorageStats;
use crate::config::{fresh_config, Config, ConfigError};
use crate::digits::{decimal, decimal_u64, decimal_usize, lemma_decimal_is_digits};
use crate::path::{ComponentView, LocalPath, PathView};
use crate::quark::item::{ItemView, RemoteItem};
use crate::quark::laws::writes;
use crate::text::{concat2, concat3, same_text, texts};
use vstd::prelude::*;

verus! {

/// What the program is to do.
#[derive(Debug)]
pub enum Command {
    /// Mount the drive, or open the settings if that is not possible yet.
    Start,
    /// Write a configuration.
    Init { cookie: String, mount: LocalPath, root_id: String, root_name: String },
    /// Take over a session.
    Login { cookie: String, requested_mount: Option<LocalPath>, no_mount: bool },
    /// Check the session.
    Doctor,
    /// List a remote directory.
    List { parent_id: Option<String> },
    Mount,
    Status,
    /// Measure the local space.
    Storage,
    /// Give up the local copy of one file.
    ReleaseOne { path: LocalPath },
    Unregister,
}

/// The arguments of the program.
#[derive(Debug)]
pub struct Cli {
    pub config: Option<LocalPath>,
    pub command: Option<Command>,
}

/// What is answered before anything else is looked at.
#[derive(Clone, Copy, Debug, PartialEq, Eq, Structural)]
pub enum Inquiry {
    Help,
    Version,
}

/// Whether one of the arguments behind the program's name is this word.
pub open spec fn mentions(args: Seq<Seq<char>>, word: Seq<char>) -> bool {
    exists|i: int| 1 <= i < args.len() && #[trigger] args[i] == word
}

/// What the arguments inquire about. Help comes before the version.
pub open spec fn inquiry(args: Seq<Seq<char>>) -> Option<Inquiry> {
    if mentions(args, "--help"@) || mentions(args, "-h"@) || mentions(args, "help"@) {
        Some(Inquiry::Help)
    } else if mentions(args, "--version"@) || mentions(args, "-V"@) {
        Some(Inquiry::Version)
    } else {
        None
    }
}

fn is_mentioned(args: &Vec<String>, word: &str) -> (r: bool)
    ensures
        r == mentions(texts(args@), word@),
{
    let mut i: usize = 1;
    while i < args.len()
        invariant
            1 <= i,
            forall|j: int| 1 <= j < i && j < args@.len() ==> #[trigger] texts(args@)[j] != word@,
        decreases args@.len() - i,
    {
        assert(texts(args@)[i as int] == args@[i as int]@);
        if same_text(args[i].as_str(), word) {
            return true;
        }
        i += 1;
    }
    false
}

/// What the arguments, the program's name first, inquire about.
pub fn inquires(args: &Vec<String>) -> (r: Option<Inquiry>)
    ensures
        r == inquiry(texts(args@)),
{
    if is_mentioned(args, "--help") || is_mentioned(args, "-h") || is_mentioned(args, "help") {
        Some(Inquiry::Help)
    } else if is_mentioned(args, "--version") || is_mentioned(args, "-V") {
        Some(Inquiry::Version)
    } else {
        None
    }
}

/// The line that names the program's version.
pub fn version_line(version: &str) -> (r: String)
    ensures
        r@ == "quarkdrive "@ + version@,
{
    concat2("quarkdrive ", version)
}

impl Cli {
    /// What the program is to do: it starts where nothing else was asked for.
    pub fn chosen(self) -> (r: Command)
        ensures
            r == (match self.command {
                Some(command) => command,
                None => Command::Start,
            }),
    {
        match self.command {
            Some(command) => command,
            None => Command::Start,
        }
    }

    /// Whether the program works without a console.
    pub fn hides_console(&self) -> (r: bool)
        ensures
            r == (match self.command {
                None => true,
                Some(command) => command is Start || command is Mount,
            }),
    {
        match &self.command {
            None => true,
            Some(Command::Start) => true,
            Some(Command::Mount) => true,
            _ => false,
        }
    }
}

// ---------------------------------------------------------------------------
// Starting
// ---------------------------------------------------------------------------

/// How the program starts.
#[derive(Debug)]
pub enum StartStep {
    /// The drive is mounted.
    Mount(Config),
    /// The user is asked to log in, with these settings to begin with.
    Settings(Config, ConfigError),
}

/// How the program starts, from the configuration that was read. One with a
/// fault is not mounted, but its settings are shown; where there is none, the
/// settings are those of a new user.
pub fn start(read: Result<Config, ConfigError>, default_mount: LocalPath) -> (r: StartStep)
    ensures
        match read {
            Ok(config) => match config@.fault() {
                None => r == StartStep::Mount(config),
                Some(fault) => r == StartStep::Settings(config, fault),
            },
            Err(e) => r matches StartStep::Settings(config, reason) && reason == e && config@
                == fresh_config(Seq::empty(), default_mount@),
        },
{
    match read {
        Ok(config) => match config.validate() {
            Ok(_) => StartStep::Mount(config),
            Err(fault) => StartStep::Settings(config, fault),
        },
        Err(e) => StartStep::Settings(Config::logged_out(default_mount), e),
    }
}

/// The program mounts the drive where a configuration was read that can be
/// loaded, and nowhere else.
pub proof fn law_only_good_configurations_are_mounted(
    read: Result<Config, ConfigError>,
    default_mount: LocalPath,
    step: StartStep,
    loaded: Result<Config, ConfigError>,
)
    requires
        call_ensures(start, (read, default_mount), step),
        call_ensures(Config::load, (read,), loaded),
    ensures
        step is Mount == loaded is Ok,
        step matches StartStep::Mount(config) ==> loaded == Ok::<Config, ConfigError>(config),
{
}

/// The directory that is mounted to by default, in the user's own directory or in
/// another. The separator is the platform's.
pub fn default_mount_path(home: Option<LocalPath>, otherwise: LocalPath, separator: char) -> (r:
    LocalPath)
    ensures
        ({
            let base = match home {
                Some(directory) => directory@,
                None => otherwise@,
            };
            &&& r@ == base.child("QuarkDrive"@, separator)
            &&& r@.absolute == base.absolute
            &&& r@.components == base.components.push(ComponentView::Normal("QuarkDrive"@))
        }),
{
    let base = match home {
        Some(directory) => directory,
        None => otherwise,
    };
    base.child("QuarkDrive", separator)
}

/// The remote directory that is listed: the one that was asked for, or the one
/// that is mounted.
pub fn listed_directory(parent_id: Option<String>, config: &Config) -> (r: String)
    ensures
        r@ == (match parent_id {
            Some(id) => id@,
            None => config.remote_root_id@,
        }),
{
    match parent_id {
        Some(id) => id,
        None => config.remote_root_id.clone(),
    }
}

// ---------------------------------------------------------------------------
// What is printed
// ---------------------------------------------------------------------------

/// After a configuration was written.
pub fn saved_line(path: &str) -> (r: String)
    ensures
        r@ == "配置已保存："@ + path@,
{
    concat2("配置已保存：", path)
}

/// After a session was taken over.
pub fn login_line(no_mount: bool) -> (r: String)
    ensures
        r@ == (if no_mount {
            "夸克网盘登录会话已更新。"@
        } else {
            "登录会话已更新，正在挂载夸克网盘……"@
        }),
{
    if no_mount {
        "夸克网盘登录会话已更新。".to_owned()
    } else {
        "登录会话已更新，正在挂载夸克网盘……".to_owned()
    }
}

/// After the session was checked.
pub fn doctor_lines(count: usize, config: &Config) -> (r: String)
    ensures
        r@ == "登录有效；远端根目录包含 "@ + decimal(count as nat) + " 个项目。\n挂载目录："@
            + config.mount_path.text@,
{
    let number = decimal_usize(count);
    let mut text = concat3("登录有效；远端根目录包含 ", number.as_str(), " 个项目。\n挂载目录：");
    text.append(config.mount_path.text.as_str());
    text
}

/// The line of an item in a listing.
pub open spec fn item_text(item: ItemView) -> Seq<char> {
    (if item.is_directory {
        "DIR "@
    } else {
        "FILE"@
    }) + "\t"@ + decimal(item.size as nat) + "\t"@ + item.id + "\t"@ + item.name
}

/// The line of an item in a listing.
pub fn item_line(item: &RemoteItem) -> (r: String)
    ensures
        r@ == item_text(item@),
{
    let mut line = if item.is_directory {
        "DIR ".to_owned()
    } else {
        "FILE".to_owned()
    };
    let size = decimal_u64(item.size);
    line.append("\t");
    line.append(size.as_str());
    line.append("\t");
    line.append(item.id.as_str());
    line.append("\t");
    line.append(item.name.as_str());
    line
}

pub open spec fn truth_text(b: bool) -> Seq<char> {
    if b {
        "true"@
    } else {
        "false"@
    }
}

/// What is said of the mount.
pub open spec fn status_text(status: RegistrationStatus, mount: PathView) -> Seq<char> {
    "资源管理器注册："@ + (if status.shell_registered {
        "正常"@
    } else {
        "未注册（请运行 mount）"@
    }) + "\n挂载目录存在："@ + truth_text(status.directory_exists) + "\n同步根 ID："@
        + status.sync_root_id@ + "\n挂载目录："@ + mount.text
}

/// What is said of the mount.
pub fn status(value: &RegistrationStatus, config: &Config) -> (r: String)
    ensures
        r@ == status_text(*value, config.mount_path@),
{
    let mut text = "资源管理器注册：".to_owned();
    text.append(
        if value.shell_registered {
            "正常"
        } else {
            "未注册（请运行 mount）"
        },
    );
    text.append("\n挂载目录存在：");
    text.append(
        if value.directory_exists {
            "true"
        } else {
            "false"
        },
    );
    text.append("\n同步根 ID：");
    text.append(value.sync_root_id.as_str());
    text.append("\n挂载目录：");
    text.append(config.mount_path.text.as_str());
    text
}

/// What is said of the local space.
pub open spec fn storage_text(stats: LocalStorageStats) -> Seq<char> {
    "逻辑容量："@ + decimal(stats.logical_bytes as nat) + " 字节\n本地占用："@ + decimal(
        stats.local_bytes as nat,
    ) + " 字节\n可释放："@ + decimal(stats.releasable_bytes as nat) + " 字节\n文件数："@ + decimal(
        stats.file_count as nat,
    ) + "\n可释放文件数："@ + decimal(stats.releasable_files as nat)
}

/// What is said of the local space.
pub fn storage_lines(stats: &LocalStorageStats) -> (r: String)
    ensures
        r@ == storage_text(*stats),
{
    let mut text = "逻辑容量：".to_owned();
    text.append(decimal_u64(stats.logical_bytes).as_str());
    text.append(" 字节\n本地占用：");
    text.append(decimal_u64(stats.local_bytes).as_str());
    text.append(" 字节\n可释放：");
    text.append(decimal_u64(stats.releasable_bytes).as_str());
    text.append(" 字节\n文件数：");
    text.append(decimal_u64(stats.file_count).as_str());
    text.append("\n可释放文件数：");
    text.append(decimal_u64(stats.releasable_files).as_str());
    text
}

/// After the sync root was unregistered.
pub fn unregistered_line(config: &Config) -> (r: String)
    ensures
        r@ == "已注销同步根："@ + config.mount_path.text@ + "（本地文件未删除）"@,
{
    concat3("已注销同步根：", config.mount_path.text.as_str(), "（本地文件未删除）")
}

// ---------------------------------------------------------------------------
// Laws
// ---------------------------------------------------------------------------

/// Help is given exactly where an argument behind the program's name asks for it,
/// and the version where one asks for that and none for help.
pub proof fn law_inquiries_are_answered(args: Vec<String>, r: Option<Inquiry>)
    requires
        call_ensures(inquires, (&args,), r),
    ensures
        r == Some(Inquiry::Help) <==> exists|i: int|
            1 <= i < args@.len() && ((#[trigger] args@[i])@ == "--help"@ || args@[i]@ == "-h"@
                || args@[i]@ == "help"@),
        r == Some(Inquiry::Version) <==> r != Some(Inquiry::Help) && exists|i: int|
            1 <= i < args@.len() && ((#[trigger] args@[i])@ == "--version"@ || args@[i]@ == "-V"@),
{
    let all = texts(args@);
    assert forall|i: int| 1 <= i < args@.len() implies all[i] == (#[trigger] args@[i])@ by {}
    if r == Some(Inquiry::Help) {
        let i = choose|i: int|
            1 <= i < all.len() && (#[trigger] all[i] == "--help"@ || all[i] == "-h"@ || all[i]
                == "help"@);
        assert(args@[i]@ == all[i]);
    }
    if r == Some(Inquiry::Version) {
        let i = choose|i: int|
            1 <= i < all.len() && (#[trigger] all[i] == "--version"@ || all[i] == "-V"@);
        assert(args@[i]@ == all[i]);
    }
}

/// Without a configuration that can be used, the settings are shown: those that were
/// read, or where none were, those of a user who has not logged in yet, mounted at
/// the default place.
pub proof fn law_settings_are_shown_where_nothing_is_mounted(
    read: Result<Config, ConfigError>,
    default_mount: LocalPath,
    step: StartStep,
)
    requires
        call_ensures(start, (read, default_mount), step),
    ensures
        read matches Ok(config) ==> match step {
            StartStep::Mount(c) => c == config && config@.fault() is None,
            StartStep::Settings(c, reason) => c == config && config@.fault() == Some(reason),
        },
        read matches Err(e) ==> {
            &&& step matches StartStep::Settings(c, reason)
            &&& reason == e
            &&& c.cookie@.len() == 0
            &&& c.mount_path@ == default_mount@
            &&& c.remote_root_id@ == "0"@
        },
{
}

/// The drive is mounted below the user's own directory, or below another where the
/// user has none.
pub proof fn law_mount_lies_in_the_home_directory(
    home: Option<LocalPath>,
    otherwise: LocalPath,
    separator: char,
    r: LocalPath,
)
    requires
        call_ensures(default_mount_path, (home, otherwise, separator), r),
    ensures
        home matches Some(directory) ==> r@.descends(directory@) && r@.absolute
            == directory@.absolute,
        home is None ==> r@.descends(otherwise@) && r@.absolute == otherwise@.absolute,
        r@.components.last() == ComponentView::Normal("QuarkDrive"@),
{
    let base = match home {
        Some(directory) => directory@,
        None => otherwise@,
    };
    let names = seq![ComponentView::Normal("QuarkDrive"@)];
    assert(r@.components =~= base.components + names);
    crate::path::law_descent(r@, base, base, names);
}

/// The line of an item says whether it is a directory, how large it is, its id and
/// its name.
pub proof fn law_lines_tell_the_item(item: RemoteItem, r: String)
    requires
        call_ensures(item_line, (&item,), r),
    ensures
        exists|size: Seq<char>|
            #[trigger] writes(size, item.size as int) && r@ == (if item.is_directory {
                "DIR "@
            } else {
                "FILE"@
            }) + "\t"@ + size + "\t"@ + item.id@ + "\t"@ + item.name@,
{
    lemma_decimal_is_digits(item.size as nat);
    assert(writes(decimal(item.size as nat), item.size as int));
}

/// Where no directory was asked for, the one that is mounted is listed.
pub proof fn law_mounted_directory_is_listed(parent_id: Option<String>, config: Config, r: String)
    requires
        call_ensures(listed_directory, (parent_id, &config), r),
    ensures
        parent_id matches Some(id) ==> r@ == id@,
        parent_id is None ==> r@ == config.remote_root_id@,
{
}

/// What is printed of the local space names each number once, as it was counted.
pub proof fn law_printed_space_is_what_was_counted(stats: LocalStorageStats, r: String)
    requires
        call_ensures(storage_lines, (&stats,), r),
    ensures
        exists|a: Seq<char>, b: Seq<char>, c: Seq<char>, d: Seq<char>, e: Seq<char>|
            {
                &&& #[trigger] writes(a, stats.logical_bytes as int)
                &&& #[trigger] writes(b, stats.local_bytes as int)
                &&& #[trigger] writes(c, stats.releasable_bytes as int)
                &&& #[trigger] writes(d, stats.file_count as int)
                &&& #[trigger] writes(e, stats.releasable_files as int)
                &&& r@ == "逻辑容量："@ + a + " 字节\n本地占用："@ + b + " 字节\n可释放："@ + c
                    + " 字节\n文件数："@ + d + "\n可释放文件数："@ + e
            },
{
    lemma_decimal_is_digits(stats.logical_bytes as nat);
    lemma_decimal_is_digits(stats.local_bytes as nat);
    lemma_decimal_is_digits(stats.releasable_bytes as nat);
    lemma_decimal_is_digits(stats.file_count as nat);
    lemma_decimal_is_digits(stats.releasable_files as nat);
    assert(writes(decimal(stats.logical_bytes as nat), stats.logical_bytes as int));
    assert(writes(decimal(stats.local_bytes as nat), stats.local_bytes as int));
    assert(writes(decimal(stats.releasable_bytes as nat), stats.releasable_bytes as int));
    assert(writes(decimal(stats.file_count as nat), stats.file_count as int));
    assert(writes(decimal(stats.releasable_files as nat), stats.releasable_files as int));
}

/// The program does what was asked for, and starts where nothing was; and it works
/// without a console exactly where it starts or mounts.
pub proof fn law_program_does_what_was_asked(cli: Cli, hidden: bool, r: Command)
    requires
        call_ensures(Cli::hides_console, (&cli,), hidden),
        call_ensures(Cli::chosen, (cli,), r),
    ensures
        cli.command matches Some(command) ==> r == command,
        cli.command is None ==> r is Start,
        hidden <==> r is Start || r is Mount,
{
}

/// What is said of the mount tells whether it is registered and whether it is there,
/// and where it is.
pub proof fn law_status_tells_the_registration(
    registered: bool,
    exists_there: bool,
    value: RegistrationStatus,
    config: Config,
    r: String,
)
    requires
        call_ensures(registration_status, (registered, exists_there), value),
        call_ensures(status, (&value, &config), r),
    ensures
        r@ == "资源管理器注册："@ + (if registered {
            "正常"@
        } else {
            "未注册（请运行 mount）"@
        }) + "\n挂载目录存在："@ + (if exists_there {
            "true"@
        } else {
            "false"@
        }) + "\n同步根 ID："@ + "QuarkDrive!Personal"@ + "\n挂载目录："@ + config.mount_path.text@,
{
}

/// The check of a session tells how much the remote root holds, and where it is
/// mounted.
pub proof fn law_doctor_tells_the_count(count: usize, config: Config, r: String)
    requires
        call_ensures(doctor_lines, (count, &config), r),
    ensures
        exists|number: Seq<char>|
            #[trigger] writes(number, count as int) && r@ == "登录有效；远端根目录包含 "@ + number
                + " 个项目。\n挂载目录："@ + config.mount_path.text@,
{
    lemma_decimal_is_digits(count as nat);
    assert(writes(decimal(count as nat), count as int));
}

} // verus!
