//! The configuration, the command line and the log.

use quarkdrive_windows::cli::{
    default_mount_path, doctor_lines, inquires, item_line, listed_directory, login_line, saved_line,
    start, status, storage_lines, unregistered_line, version_line, Cli, Command, Inquiry, StartStep,
};
use quarkdrive_windows::cloud_files::root::registration_status;
use quarkdrive_windows::cloud_files::storage::LocalStorageStats;
use quarkdrive_windows::config::{
    default_config_path, default_root_id, default_root_label, default_root_name,
    default_start_on_login, save_cookie, Config, ConfigError, ConfigRecord,
};
use quarkdrive_windows::logging;
use quarkdrive_windows::path::{LocalPath, PathComponent};
use quarkdrive_windows::quark::item::RemoteItem;

fn place(text: &str, absolute: bool) -> LocalPath {
    LocalPath { text: text.to_owned(), absolute, components: Vec::new() }
}

fn config() -> Config {
    Config::initial(
        "k=v".to_owned(),
        place("/mnt/q", true),
        "7".to_owned(),
        "网盘".to_owned(),
    )
}

fn args(list: &[&str]) -> Vec<String> {
    list.iter().map(|s| s.to_string()).collect()
}

#[test]
fn defaults() {
    assert_eq!(default_root_id(), "0");
    assert_eq!(default_root_name(), "夸克网盘");
    assert_eq!(default_root_label(), "全部文件");
    assert!(default_start_on_login());
    let c = config();
    assert_eq!(c.remote_root_id, "7");
    assert_eq!(c.remote_root_name, "网盘");
    assert_eq!(c.remote_root_label, "全部文件");
    assert!(c.start_on_login);
    assert_eq!(c.account_nickname, "");
    let out = Config::logged_out(place("/q", true));
    assert_eq!((out.cookie.as_str(), out.remote_root_id.as_str()), ("", "0"));
}

#[test]
fn what_a_record_lacks_is_as_in_a_fresh_configuration() {
    let c = ConfigRecord {
        cookie: None,
        account_nickname: None,
        account_id: None,
        account_avatar: None,
        remote_root_id: None,
        remote_root_name: None,
        remote_root_label: None,
        start_on_login: None,
        mount_path: place("/q", true),
    }
    .into_config();
    assert_eq!((c.cookie.as_str(), c.account_nickname.as_str()), ("", ""));
    assert_eq!((c.account_id.as_str(), c.account_avatar.as_str()), ("", ""));
    assert_eq!((c.remote_root_id.as_str(), c.remote_root_name.as_str()), ("0", "夸克网盘"));
    assert_eq!((c.remote_root_label.as_str(), c.start_on_login), ("全部文件", true));
    assert_eq!(c.mount_path.text, "/q");
}

#[test]
fn what_was_saved_loads() {
    let mut c = config();
    c.account_nickname = "n".to_owned();
    c.account_id = "i".to_owned();
    c.account_avatar = "a".to_owned();
    c.remote_root_label = "l".to_owned();
    c.start_on_login = false;
    let d = Config::load(Ok(c.save().unwrap().into_config())).unwrap();
    assert_eq!((d.cookie.as_str(), d.account_nickname.as_str()), ("k=v", "n"));
    assert_eq!((d.account_id.as_str(), d.account_avatar.as_str()), ("i", "a"));
    assert_eq!((d.remote_root_id.as_str(), d.remote_root_name.as_str()), ("7", "网盘"));
    assert_eq!((d.remote_root_label.as_str(), d.start_on_login), ("l", false));
    assert_eq!((d.mount_path.text.as_str(), d.mount_path.absolute), ("/mnt/q", true));
    c.cookie = String::new();
    assert!(matches!(c.save(), Err(ConfigError::NotLoggedIn)));
}

#[test]
fn faults_are_found_in_order() {
    assert!(config().validate().is_ok());
    let mut c = config();
    c.mount_path.absolute = false;
    assert_eq!(c.validate(), Err(ConfigError::RelativeMount));
    c.remote_root_id = " ".to_owned();
    assert_eq!(c.validate(), Err(ConfigError::EmptyRootId));
    c.cookie = "\t".to_owned();
    assert_eq!(c.validate(), Err(ConfigError::NotLoggedIn));
}

#[test]
fn config_messages() {
    assert_eq!(
        ConfigError::NotLoggedIn.message(),
        "尚未登录夸克网盘：请打开设置页扫码登录，或使用兼容性的 login --cookie 命令"
    );
    assert_eq!(ConfigError::EmptyRootId.message(), "远端根目录 ID 不能为空");
    assert_eq!(ConfigError::RelativeMount.message(), "挂载目录必须是绝对路径");
    assert_eq!(ConfigError::NoDirectory.message(), "无法确定当前用户的配置目录");
    assert_eq!(ConfigError::Unreadable("r".into()).message(), "r");
}

#[test]
fn a_checked_configuration_loads() {
    assert_eq!(Config::load(Ok(config())).unwrap().cookie, "k=v");
    let mut bad = config();
    bad.cookie.clear();
    assert!(matches!(Config::load(Ok(bad)), Err(ConfigError::NotLoggedIn)));
    let unread = Err(ConfigError::Unreadable("gone".into()));
    assert!(matches!(Config::load(unread), Err(ConfigError::Unreadable(r)) if r == "gone"));
}

#[test]
fn a_new_session_keeps_the_rest() {
    let mut old = config();
    old.account_nickname = "N".to_owned();
    old.start_on_login = false;
    let c = save_cookie(Some(old.clone()), "x=y".into(), None, place("/d", true));
    assert_eq!(c.cookie, "x=y");
    assert_eq!(c.account_nickname, "N");
    assert!(!c.start_on_login);
    assert_eq!(c.mount_path.text, "/mnt/q");
    let c = save_cookie(Some(old), "x=y".into(), Some(place("/r", true)), place("/d", true));
    assert_eq!(c.mount_path.text, "/r");
    let c = save_cookie(None, "x=y".into(), None, place("/d", true));
    assert_eq!(c.mount_path.text, "/d");
    assert_eq!(c.remote_root_id, "0");
    let c = save_cookie(None, "x=y".into(), Some(place("/r", true)), place("/d", true));
    assert_eq!(c.mount_path.text, "/r");
}

fn names(path: &LocalPath) -> Vec<String> {
    path.components
        .iter()
        .map(|component| match component {
            PathComponent::Normal(name) => name.clone(),
            PathComponent::Prefix(prefix) => prefix.clone(),
            PathComponent::RootDir => "\\".to_owned(),
            PathComponent::CurDir => ".".to_owned(),
            PathComponent::ParentDir => "..".to_owned(),
        })
        .collect()
}

fn drive(text: &str, directories: &[&str]) -> LocalPath {
    let mut components = vec![PathComponent::Prefix("C:".to_owned()), PathComponent::RootDir];
    components.extend(directories.iter().map(|name| PathComponent::Normal(name.to_string())));
    LocalPath { text: text.to_owned(), absolute: true, components }
}

#[test]
fn the_configuration_lies_in_its_directory() {
    let base = drive(r"C:\AppData", &["AppData"]);
    let path = default_config_path(Some(base), '\\').unwrap();
    assert_eq!(path.text, r"C:\AppData\QuarkDrive\config.json");
    assert_eq!(names(&path), ["C:", "\\", "AppData", "QuarkDrive", "config.json"]);
    assert!(path.absolute);
    assert_eq!(default_config_path(None, '\\').unwrap_err(), ConfigError::NoDirectory);
}

#[test]
fn the_log_lies_in_its_directory_and_stays_there() {
    let local = || Some(drive(r"C:\Local", &["Local"]));
    let roaming = || Some(drive(r"C:\Roaming", &["Roaming"]));
    let here = || place(".", false);
    let text = |a, b| logging::path(&mut None, a, b, here(), '\\').text;
    assert_eq!(text(local(), roaming()), r"C:\Local\QuarkDrive\quarkdrive.log");
    assert_eq!(text(None, roaming()), r"C:\Roaming\QuarkDrive\quarkdrive.log");
    assert_eq!(text(None, None), r".\QuarkDrive\quarkdrive.log");
    let mut known = None;
    let first = logging::path(&mut known, local(), None, here(), '\\');
    assert_eq!(names(&first), ["C:", "\\", "Local", "QuarkDrive", "quarkdrive.log"]);
    let later = logging::path(&mut known, None, roaming(), here(), '/');
    assert_eq!(later.text, first.text);
}

#[test]
fn the_mount_lies_in_the_home_directory() {
    let home = drive(r"C:\Users\me", &["Users", "me"]);
    let root = || drive(r"C:\", &[]);
    assert_eq!(default_mount_path(Some(home), root(), '\\').text, r"C:\Users\me\QuarkDrive");
    let path = default_mount_path(None, root(), '\\');
    assert_eq!(path.text, r"C:\QuarkDrive");
    assert_eq!(names(&path), ["C:", "\\", "QuarkDrive"]);
}

#[test]
fn joining_agrees_with_the_platform() {
    let separator = std::path::MAIN_SEPARATOR;
    for text in ["/home/me", "/", "a/b", "a/", ".", "", "/a//"] {
        let base = std::path::Path::new(text);
        let path = default_mount_path(Some(place(text, base.is_absolute())), place("x", false), separator);
        assert_eq!(std::path::PathBuf::from(path.text), base.join("QuarkDrive"), "{text}");
        assert_eq!(path.absolute, base.join("QuarkDrive").is_absolute());
    }
}

#[test]
fn inquiries_come_first() {
    assert_eq!(inquires(&args(&["quarkdrive"])), None);
    assert_eq!(inquires(&args(&["--help"])), None);
    assert_eq!(inquires(&args(&["q", "status", "-h"])), Some(Inquiry::Help));
    assert_eq!(inquires(&args(&["q", "help"])), Some(Inquiry::Help));
    assert_eq!(inquires(&args(&["q", "-V", "--help"])), Some(Inquiry::Help));
    assert_eq!(inquires(&args(&["q", "-V"])), Some(Inquiry::Version));
    assert_eq!(inquires(&args(&["q", "--version"])), Some(Inquiry::Version));
    assert_eq!(inquires(&args(&["q", "-v"])), None);
    assert_eq!(inquires(&Vec::new()), None);
    assert_eq!(version_line("0.1.0"), "quarkdrive 0.1.0");
}

#[test]
fn nothing_chosen_is_a_start() {
    let cli = Cli { config: None, command: None };
    assert!(cli.hides_console());
    assert!(matches!(cli.chosen(), Command::Start));
    let cli = Cli { config: None, command: Some(Command::Mount) };
    assert!(cli.hides_console());
    assert!(matches!(cli.chosen(), Command::Mount));
    let cli = Cli { config: None, command: Some(Command::Status) };
    assert!(!cli.hides_console());
    assert!(matches!(cli.chosen(), Command::Status));
}

#[test]
fn starting_mounts_or_asks() {
    assert!(matches!(start(Ok(config()), place("/d", true)), StartStep::Mount(c) if c.cookie == "k=v"));
    let mut bad = config();
    bad.cookie.clear();
    match start(Ok(bad), place("/d", true)) {
        StartStep::Settings(c, reason) => {
            assert_eq!(c.remote_root_id, "7");
            assert_eq!(reason, ConfigError::NotLoggedIn);
        }
        _ => panic!(),
    }
    match start(Err(ConfigError::Unreadable("gone".into())), place("/d", true)) {
        StartStep::Settings(c, _) => {
            assert_eq!(c.mount_path.text, "/d");
            assert_eq!(c.cookie, "");
        }
        _ => panic!(),
    }
}

#[test]
fn printed_lines() {
    let c = config();
    assert_eq!(saved_line("/c.json"), "配置已保存：/c.json");
    assert_eq!(login_line(true), "夸克网盘登录会话已更新。");
    assert_eq!(login_line(false), "登录会话已更新，正在挂载夸克网盘……");
    assert_eq!(
        doctor_lines(12, &c),
        "登录有效；远端根目录包含 12 个项目。\n挂载目录：/mnt/q"
    );
    assert_eq!(listed_directory(None, &c), "7");
    assert_eq!(listed_directory(Some("9".into()), &c), "9");
    let mut item = RemoteItem {
        id: "i".into(),
        parent_id: "0".into(),
        name: "n".into(),
        is_directory: true,
        size: 0,
        created_at_ms: 0,
        modified_at_ms: 0,
        version: String::new(),
    };
    assert_eq!(item_line(&item), "DIR \t0\ti\tn");
    item.is_directory = false;
    item.size = 34;
    assert_eq!(item_line(&item), "FILE\t34\ti\tn");
    assert_eq!(unregistered_line(&c), "已注销同步根：/mnt/q（本地文件未删除）");
    assert_eq!(
        status(&registration_status(true, false), &c),
        "资源管理器注册：正常\n挂载目录存在：false\n同步根 ID：QuarkDrive!Personal\n挂载目录：/mnt/q"
    );
    assert_eq!(
        status(&registration_status(false, true), &c),
        "资源管理器注册：未注册（请运行 mount）\n挂载目录存在：true\n同步根 ID：QuarkDrive!Personal\n挂载目录：/mnt/q"
    );
    let stats = LocalStorageStats {
        logical_bytes: 5,
        local_bytes: 4,
        releasable_bytes: 3,
        file_count: 2,
        releasable_files: 1,
        skipped_files: 0,
    };
    assert_eq!(
        storage_lines(&stats),
        "逻辑容量：5 字节\n本地占用：4 字节\n可释放：3 字节\n文件数：2\n可释放文件数：1"
    );
}

#[test]
fn the_end_of_the_log_begins_with_a_line() {
    let log = b"first\nsecond\nthird\n".to_vec();
    assert_eq!(logging::log_tail(log.clone(), 100), log);
    assert_eq!(logging::log_tail(log.clone(), 10), b"third\n");
    assert_eq!(logging::log_tail(log.clone(), 6), b"");
    assert_eq!(logging::log_tail(log.clone(), 7), b"third\n");
    assert_eq!(logging::log_tail(b"abcdef".to_vec(), 3), b"def");
    assert_eq!(logging::log_tail(log, 0), b"");
}

#[test]
fn the_end_of_the_log_is_text() {
    let log = "夸克\n网盘\n".as_bytes().to_vec();
    assert_eq!(logging::read_tail(Some(log.clone()), 100), "夸克\n网盘\n");
    assert_eq!(logging::read_tail(Some(log), 9), "网盘\n");
    assert_eq!(logging::read_tail(Some(vec![b'a', 0xff, b'b']), 9), "a\u{fffd}b");
    assert_eq!(logging::read_tail(None, 9), "");
    assert_eq!(logging::log_text(Ok("x".into())), "x");
    assert_eq!(logging::log_text(Err("y".into())), "日志读取失败：y");
}
