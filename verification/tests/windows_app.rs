//! The settings window.

use quarkdrive_windows::config::Config;
use quarkdrive_windows::path::{LocalPath, PathComponent};
use quarkdrive_windows::quark::item::RemoteItem;
use quarkdrive_windows::quark::login::{AccountInfo, QrLoginResult};
use quarkdrive_windows::cloud_files::storage::{LocalStorageEntry, LocalStorageStats};
use quarkdrive_windows::windows_app::command::{
    cancels_login, handle_command, tray_command, tray_tip, AppCommand, TrayCommand,
};
use quarkdrive_windows::windows_app::layout::{
    create_controls, create_qr_controls, set_tab, ControlKind, Role,
};
use quarkdrive_windows::windows_app::mount::{
    folded_contains, is_ancestor_or_same, is_safe_mount_directory, migrate_mount_directory,
    validate_mount_migration, MigrateNext, MigrateStage, MigrationError, MigrationFacts, NewPlace,
};
use quarkdrive_windows::windows_app::save_run::{
    begin_saving, SaveAction, SaveEvent, SaveNext, SaveStage,
};
use quarkdrive_windows::windows_app::settings::{
    account_detail, account_text, apply_settings, config_needs_login, finish_login,
    load_remote_roots, login_detail, save_and_restart, selected_root, startup_command, SaveStep,
    SettingsError,
};
use quarkdrive_windows::windows_app::size::format_bytes;
use quarkdrive_windows::windows_app::storage_view::{
    finish_storage_task, release_prompt, selected_bytes, selected_storage_paths, storage_label,
    task_status, ReleasePrompt, StorageTask,
};

/// A path as Windows splits it: a drive, its root, and names.
fn path(text: &str) -> LocalPath {
    let (drive, rest) = text.split_at(2);
    let mut components = vec![PathComponent::Prefix(drive.to_owned()), PathComponent::RootDir];
    for name in rest.split('\\').filter(|name| !name.is_empty()) {
        components.push(PathComponent::Normal(name.to_owned()));
    }
    LocalPath { text: text.to_owned(), absolute: true, components }
}

fn config() -> Config {
    Config::initial("k=v".into(), path(r"C:\Users\me\QuarkDrive"), "0".into(), "网盘".into())
}

fn item(id: &str, name: &str, is_directory: bool) -> RemoteItem {
    RemoteItem {
        id: id.to_owned(),
        parent_id: "0".to_owned(),
        name: name.to_owned(),
        is_directory,
        size: 0,
        created_at_ms: 0,
        modified_at_ms: 0,
        version: String::new(),
    }
}

fn facts() -> MigrationFacts {
    MigrationFacts {
        old_is_directory: true,
        protected: vec![path(r"C:\Users\me"), path(r"C:\Users\me\Desktop")],
        registered: Some(r"c:\users\ME\quarkdrive".to_owned()),
        new_place: NewPlace::Empty,
    }
}

// --- sizes -----------------------------------------------------------------

#[test]
fn formats_storage_sizes() {
    assert_eq!(format_bytes(0), "0 B");
    assert_eq!(format_bytes(1024), "1.0 KB");
    assert_eq!(format_bytes(5 * 1024 * 1024), "5.0 MB");
}

fn float_text(bytes: u64) -> String {
    let units = ["B", "KB", "MB", "GB", "TB"];
    let mut value = bytes as f64;
    let mut unit = 0;
    while value >= 1024.0 && unit < units.len() - 1 {
        value /= 1024.0;
        unit += 1;
    }
    if unit == 0 {
        format!("{bytes} B")
    } else {
        format!("{value:.1} {}", units[unit])
    }
}

#[test]
fn sizes_agree_with_floating_point() {
    let mut sizes: Vec<u64> = (0..5000).collect();
    for shift in 0..64 {
        let base = 1_u64 << shift;
        for delta in 0..70 {
            sizes.push(base.saturating_add(delta));
            sizes.push(base.saturating_sub(delta));
            sizes.push(base.saturating_add(delta * (base / 1280).max(1)));
            sizes.push(base.saturating_add(base / 2).saturating_add(delta));
        }
    }
    let mut seed: u64 = 0x2545_f491_4f6c_dd1d;
    for _ in 0..20000 {
        seed ^= seed << 13;
        seed ^= seed >> 7;
        seed ^= seed << 17;
        sizes.push(seed >> (seed % 64));
    }
    sizes.push(u64::MAX);
    for bytes in sizes {
        assert_eq!(format_bytes(bytes), float_text(bytes), "{bytes}");
    }
}

#[test]
fn sizes_at_the_edges_of_units() {
    assert_eq!(format_bytes(1023), "1023 B");
    assert_eq!(format_bytes(1024 * 1024 - 1), "1024.0 KB");
    assert_eq!(format_bytes(1280), "1.2 KB");
    assert_eq!(format_bytes(1792), "1.8 KB");
    assert_eq!(format_bytes(u64::MAX), "16777216.0 TB");
}

// --- moving the mount ------------------------------------------------------

#[test]
fn rejects_nested_mount_migrations() {
    assert!(is_ancestor_or_same(
        &path(r"C:\Users\me\QuarkDrive"),
        &path(r"C:\Users\me\QuarkDrive\new")
    ));
    assert!(is_ancestor_or_same(
        &path(r"C:\Users\me"),
        &path(r"C:\Users\me\QuarkDrive")
    ));
    assert!(!is_ancestor_or_same(
        &path(r"C:\Users\me\QuarkDrive"),
        &path(r"D:\QuarkDrive")
    ));
}

#[test]
fn rejects_drive_roots_as_mount_directory() {
    let protected = vec![path(r"C:\Users\me")];
    assert!(!is_safe_mount_directory(&path(r"C:\"), &protected));
    assert!(is_safe_mount_directory(&path(r"D:\QuarkDrive"), &protected));
}

#[test]
fn containment_ignores_case_and_slashes() {
    assert!(is_ancestor_or_same(&path(r"C:\ÄB"), &path(r"c:\äb\c")));
    assert!(is_ancestor_or_same(&path("C:/a"), &path(r"C:\A\b")));
    assert!(!is_ancestor_or_same(&path(r"C:\a"), &path(r"C:\ab")));
    let a: Vec<char> = "c:\\a".chars().collect();
    let b: Vec<char> = "c:\\a\\b".chars().collect();
    assert!(folded_contains(&a, &a));
    assert!(folded_contains(&a, &b));
    assert!(!folded_contains(&b, &a));
}

#[test]
fn own_directories_are_not_safe() {
    let protected = vec![path(r"C:\Users\me"), path(r"C:\Users\me\Desktop")];
    assert!(!is_safe_mount_directory(&path(r"c:\users\ME\desktop"), &protected));
    assert!(is_safe_mount_directory(&path(r"C:\Users\me\Desktop\q"), &protected));
}

#[test]
fn obstacles_come_in_order() {
    let old = path(r"C:\Users\me\QuarkDrive");
    let new = path(r"D:\Q");
    assert!(validate_mount_migration(&old, &new, &facts()).is_ok());
    let check = |old: &LocalPath, new: &LocalPath, facts: &MigrationFacts| {
        validate_mount_migration(old, new, facts).unwrap_err().message()
    };
    let mut f = facts();
    f.new_place = NewPlace::Absent;
    assert!(validate_mount_migration(&old, &new, &f).is_ok());
    f.new_place = NewPlace::Occupied;
    assert_eq!(check(&old, &new, &f), r"新挂载目录必须为空：D:\Q");
    f.new_place = NewPlace::NotDirectory;
    assert_eq!(check(&old, &new, &f), r"新挂载位置不是文件夹：D:\Q");
    f.new_place = NewPlace::Unreadable("denied".into());
    assert_eq!(check(&old, &new, &f), "denied");
    assert_eq!(
        check(&old, &path(r"C:\Users\me\QuarkDrive\x"), &f),
        "新旧挂载目录不能互相包含"
    );
    assert_eq!(check(&old, &path(r"C:\Users\me"), &f), "新旧挂载目录不能互相包含");
    f.registered = None;
    assert_eq!(
        check(&old, &new, &f),
        r"旧目录不是当前注册的夸克同步根，已阻止删除：C:\Users\me\QuarkDrive"
    );
    f.protected.push(path(r"C:\Users\me\quarkdrive"));
    assert_eq!(
        check(&old, &new, &f),
        r"拒绝删除不安全的旧挂载目录：C:\Users\me\QuarkDrive"
    );
    f.old_is_directory = false;
    assert_eq!(check(&old, &new, &f), r"旧挂载目录不存在：C:\Users\me\QuarkDrive");
    let mut relative = path(r"D:\Q");
    relative.absolute = false;
    assert_eq!(check(&old, &relative, &f), "挂载目录必须是绝对路径");
    assert_eq!(
        validate_mount_migration(&relative, &new, &f),
        Err(MigrationError::Relative)
    );
}

#[test]
fn removal_is_tried_four_times() {
    let old = path(r"C:\q");
    let step = |stage, outcome: Result<(), &str>| {
        migrate_mount_directory(stage, outcome.map_err(str::to_owned), &old)
    };
    assert!(matches!(
        step(MigrateStage::Unregistering, Ok(())),
        MigrateNext::Remove { failures: 0, pause_ms: 0 }
    ));
    assert!(matches!(
        step(MigrateStage::Unregistering, Err("no")),
        MigrateNext::Failed { pause_ms: 0, reason } if reason == "no"
    ));
    let mut failures = 0;
    let mut attempts = 1;
    loop {
        match step(MigrateStage::Removing { failures }, Err("busy")) {
            MigrateNext::Remove { failures: more, pause_ms } => {
                assert_eq!(pause_ms, 250);
                failures = more;
                attempts += 1;
            }
            MigrateNext::Failed { pause_ms, reason } => {
                assert_eq!(pause_ms, 250);
                assert_eq!(reason, r"无法删除旧挂载目录 C:\q");
                break;
            }
            other => panic!("{other:?}"),
        }
    }
    assert_eq!(attempts, 4);
    assert!(matches!(
        step(MigrateStage::Removing { failures: 3 }, Ok(())),
        MigrateNext::CreateParent
    ));
    assert!(matches!(step(MigrateStage::CreatingParent, Ok(())), MigrateNext::Done));
    assert!(matches!(
        step(MigrateStage::CreatingParent, Err("denied")),
        MigrateNext::Failed { reason, .. } if reason == "denied"
    ));
}

// --- the account -----------------------------------------------------------

#[test]
fn account_lines() {
    let mut c = config();
    assert!(!config_needs_login(&c));
    assert_eq!(account_text(&c), "已登录夸克网盘");
    assert_eq!(account_detail(&c), "已保存登录会话，可重新扫码切换账号");
    assert_eq!(login_detail(&c), "登录会话已保存，可点击保存并重启完成挂载");
    c.account_nickname = "小明".into();
    c.account_id = "1001".into();
    assert_eq!(account_text(&c), "小明");
    assert_eq!(account_detail(&c), "账号 ID：1001 · 登录会话已保存");
    assert_eq!(login_detail(&c), "账号 ID：1001 · 登录会话已保存");
    c.account_id = " ".into();
    assert_eq!(login_detail(&c), "账号 ID：  · 登录会话已保存");
    assert_eq!(account_detail(&c), "已保存登录会话，可重新扫码切换账号");
    c.cookie = " ".into();
    assert!(config_needs_login(&c));
    assert_eq!(account_text(&c), "未登录夸克网盘");
    assert_eq!(account_detail(&c), "使用夸克网盘 APP 扫码登录，登录信息会自动保存");
}

#[test]
fn a_login_changes_the_account_only() {
    let login = |nickname: &str| QrLoginResult {
        cookie: "new".into(),
        account: AccountInfo {
            nickname: nickname.into(),
            user_id: "u".into(),
            avatar_url: "a".into(),
        },
    };
    let c = finish_login(config(), login("N"));
    assert_eq!((c.cookie.as_str(), c.account_nickname.as_str()), ("new", "N"));
    assert_eq!((c.account_id.as_str(), c.account_avatar.as_str()), ("u", "a"));
    assert_eq!(c.remote_root_name, "网盘");
    assert_eq!(finish_login(config(), login(" ")).account_nickname, "夸克网盘账号");
}

// --- the remote root -------------------------------------------------------

#[test]
fn roots_are_listed() {
    let items = || {
        Some(vec![
            item("1", "照片", true),
            item("2", "a.txt", false),
            item("3", ".quarkdrive-trash-x", true),
            item("4", "文档", true),
        ])
    };
    let pair = |a: &str, b: &str| (a.to_owned(), b.to_owned());
    let mut c = config();
    assert_eq!(
        load_remote_roots(&c, items()),
        vec![pair("0", "全部文件"), pair("1", "照片"), pair("4", "文档")]
    );
    c.remote_root_id = "4".into();
    let roots = load_remote_roots(&c, items());
    assert_eq!(selected_root(&roots, &c.remote_root_id), 2);
    c.remote_root_id = "9".into();
    c.remote_root_label = "深处".into();
    let roots = load_remote_roots(&c, None);
    assert_eq!(roots, vec![pair("0", "全部文件"), pair("9", "深处")]);
    assert_eq!(selected_root(&roots, "9"), 1);
    assert_eq!(selected_root(&roots, "x"), 0);
    c.cookie = String::new();
    assert_eq!(load_remote_roots(&c, items()), vec![pair("0", "全部文件")]);
}

// --- saving ----------------------------------------------------------------

#[test]
fn saving_checks_and_asks() {
    let c = config();
    let here = path(r"c:\users\ME\QuarkDrive");
    let there = path(r"D:\Q");
    assert!(matches!(
        save_and_restart(&c, &here, " ", &facts()),
        Err(SettingsError::BlankName)
    ));
    assert!(matches!(save_and_restart(&c, &here, "n", &facts()), Ok(SaveStep::Save)));
    match save_and_restart(&c, &there, "n", &facts()) {
        Ok(SaveStep::AskFirst(question)) => assert_eq!(
            question,
            "将把夸克网盘挂载位置从：\nC:\\Users\\me\\QuarkDrive\n\n切换到：\nD:\\Q\n\n旧挂载目录中的全部文件和文件夹会从本机删除，然后在新目录重新同步。云端文件不会被删除。\n\n是否继续？"
        ),
        _ => panic!(),
    }
    let mut bad = facts();
    bad.registered = None;
    match save_and_restart(&c, &there, "n", &bad) {
        Err(e) => assert_eq!(
            e.message(),
            r"旧目录不是当前注册的夸克同步根，已阻止删除：C:\Users\me\QuarkDrive"
        ),
        _ => panic!(),
    }
    assert_eq!(SettingsError::BlankName.message(), "资源管理器显示名称不能为空");
    assert_eq!(
        SettingsError::NotLoggedIn.message(),
        "请先点击“二维码登录”，使用夸克网盘 APP 扫码完成登录"
    );
}

#[test]
fn settings_are_applied() {
    let roots = vec![("0".to_owned(), "全部文件".to_owned()), ("5".to_owned(), "照片".to_owned())];
    let c = apply_settings(&config(), path(r"D:\Q"), " 新名 ", &roots, 1, false).unwrap();
    assert_eq!(c.mount_path.text, r"D:\Q");
    assert_eq!(c.remote_root_name, "新名");
    assert_eq!((c.remote_root_id.as_str(), c.remote_root_label.as_str()), ("5", "照片"));
    assert!(!c.start_on_login);
    assert_eq!(c.cookie, "k=v");
    for outside in [-1, 2, isize::MAX] {
        let c = apply_settings(&config(), path(r"D:\Q"), "n", &roots, outside, true).unwrap();
        assert_eq!((c.remote_root_id.as_str(), c.remote_root_label.as_str()), ("0", "全部文件"));
    }
    let mut out = config();
    out.cookie = String::new();
    assert!(matches!(
        apply_settings(&out, path(r"D:\Q"), "n", &roots, 0, true),
        Err(SettingsError::NotLoggedIn)
    ));
    assert_eq!(startup_command(r"C:\q.exe"), "\"C:\\q.exe\"");
}

fn act(next: SaveNext) -> (SaveStage, SaveAction) {
    match next {
        SaveNext::Act(stage, action) => (stage, action),
        other => panic!("{other:?}"),
    }
}

fn done() -> SaveEvent {
    SaveEvent::Done(Ok(()))
}

#[test]
fn saving_without_a_move() {
    let c = config();
    let here = c.mount_path.clone();
    let (stage, action) = begin_saving(&c, here, "n", &facts(), &Vec::new(), -1, true).unwrap();
    assert!(matches!(action, SaveAction::SetStartup(true)));
    let (stage, action) = act(stage.after(done()));
    assert!(matches!(action, SaveAction::Write));
    assert!(matches!(&stage, SaveStage::Writing(saved) if saved.remote_root_name == "n"));
    let (stage, action) = act(stage.after(done()));
    assert!(matches!(action, SaveAction::Restart));
    assert!(matches!(stage.after(done()), SaveNext::Finished));
}

#[test]
fn saving_with_a_move() {
    let start = || {
        begin_saving(&config(), path(r"D:\Q"), "n", &facts(), &Vec::new(), 0, false).unwrap()
    };
    let (stage, action) = start();
    assert!(matches!(action, SaveAction::Ask(_)));
    assert!(matches!(stage.after(SaveEvent::Answered(false)), SaveNext::Cancelled));
    let (stage, action) = act(start().0.after(SaveEvent::Answered(true)));
    assert!(matches!(action, SaveAction::SetStartup(false)));
    let (stage, action) = act(stage.after(done()));
    assert!(matches!(action, SaveAction::MoveMount));
    let (stage, action) = act(stage.after(SaveEvent::Done(Err("busy".into()))));
    assert!(matches!(action, SaveAction::Reconnect));
    match stage.after(done()) {
        SaveNext::Failed(reason) => assert_eq!(reason, "busy"),
        other => panic!("{other:?}"),
    }
    let (stage, _) = act(start().0.after(SaveEvent::Answered(true)));
    let (stage, _) = act(stage.after(done()));
    let (stage, action) = act(stage.after(done()));
    assert!(matches!(action, SaveAction::Write));
    assert!(matches!(
        stage.after(SaveEvent::Done(Err("full".into()))),
        SaveNext::Failed(reason) if reason == "full"
    ));
}

#[test]
fn saving_needs_a_name_and_a_session() {
    let here = || config().mount_path;
    assert!(matches!(
        begin_saving(&config(), here(), " ", &facts(), &Vec::new(), 0, true),
        Err(SettingsError::BlankName)
    ));
    let mut out = config();
    out.cookie = String::new();
    assert!(matches!(
        begin_saving(&out, here(), "n", &facts(), &Vec::new(), 0, true),
        Err(SettingsError::NotLoggedIn)
    ));
    let (stage, _) =
        begin_saving(&out, path(r"D:\Q"), "n", &facts(), &Vec::new(), 0, true).unwrap();
    assert!(matches!(
        stage.after(SaveEvent::Answered(true)),
        SaveNext::Failed(reason) if reason == "请先点击“二维码登录”，使用夸克网盘 APP 扫码完成登录"
    ));
}

// --- local space -----------------------------------------------------------

fn entries() -> Vec<LocalStorageEntry> {
    vec![
        LocalStorageEntry { path: path(r"C:\q\a"), releasable_bytes: 2048, file_count: 3 },
        LocalStorageEntry { path: path(r"C:\q\b"), releasable_bytes: 5, file_count: 1 },
        LocalStorageEntry { path: path(r"C:\q\a"), releasable_bytes: 7, file_count: 1 },
    ]
}

#[test]
fn selections_are_found() {
    let texts = |places: Vec<i32>, count: isize| -> Vec<String> {
        selected_storage_paths(&entries(), &places, count)
            .into_iter()
            .map(|p| p.text)
            .collect()
    };
    assert_eq!(texts(vec![0, 1, 2], 3), vec![r"C:\q\a", r"C:\q\b", r"C:\q\a"]);
    assert_eq!(texts(vec![1, 0], 1), vec![r"C:\q\b"]);
    assert_eq!(texts(vec![1, -1, 9], 5), vec![r"C:\q\b"]);
    assert_eq!(texts(vec![0], 0), Vec::<String>::new());
    assert_eq!(texts(vec![0], -1), Vec::<String>::new());
    let chosen = selected_storage_paths(&entries(), &vec![1, 2], 2);
    assert_eq!(selected_bytes(&entries(), &chosen), Some(2053));
    assert_eq!(selected_bytes(&entries(), &vec![path(r"C:\q\z")]), Some(0));
    let mut large = entries();
    let rest: u64 = large[1].releasable_bytes;
    large[0].releasable_bytes = u64::MAX - rest;
    let both = vec![large[0].path.clone(), large[1].path.clone()];
    assert_eq!(selected_bytes(&large, &both), Some(u64::MAX));
    large[0].releasable_bytes += 1;
    assert_eq!(selected_bytes(&large, &both), None);
}

#[test]
fn releasing_is_asked_for() {
    match release_prompt(vec![path(r"C:\q\a"), path(r"C:\q\b")], 2048) {
        ReleasePrompt::Ask(question, StorageTask::Release { selected, expected_bytes }) => {
            assert_eq!(
                question,
                "将释放 2.0 KB 本地空间（2 个目录/文件）。\n\n文件仍会保留在夸克网盘和资源管理器中，再次打开时会按需下载。标记为“始终保留在此设备上”的文件不会被释放。"
            );
            assert_eq!((selected.len(), expected_bytes), (2, 2048));
        }
        _ => panic!(),
    }
    for prompt in [release_prompt(Vec::new(), 9), release_prompt(vec![path(r"C:\q\a")], 0)] {
        assert!(matches!(
            prompt,
            ReleasePrompt::Tell(text) if text == "当前没有可释放的本地网盘文件。"
        ));
    }
}

#[test]
fn storage_is_reported() {
    let stats = LocalStorageStats {
        logical_bytes: 4096,
        local_bytes: 2048,
        releasable_bytes: 1024,
        file_count: 9,
        releasable_files: 2,
        skipped_files: 0,
    };
    let report = finish_storage_task(&StorageTask::Scan, &stats);
    assert_eq!(report.status, "本地占用 2.0 KB · 可释放 1.0 KB");
    assert_eq!(report.detail, "云端文件总容量 4.0 KB · 2 个文件已占用本地空间");
    assert!(report.can_release && report.released.is_none());
    let task = |expected_bytes| StorageTask::Release { selected: Vec::new(), expected_bytes };
    let report = finish_storage_task(&task(3072), &stats);
    assert_eq!(report.released.unwrap(), "已释放 2.0 KB 本地空间。云端文件保持不变。");
    let report = finish_storage_task(&task(5), &stats);
    assert_eq!(report.released.unwrap(), "已释放 0 B 本地空间。云端文件保持不变。");
    let report = finish_storage_task(&StorageTask::Scan, &LocalStorageStats::default());
    assert!(!report.can_release);
    assert_eq!(task_status(&StorageTask::Scan), "正在检测本地文件容量…");
    assert_eq!(task_status(&task(1)), "正在按选择安全释放本地空间…");
    assert_eq!(storage_label(Some("a"), &entries()[0]), "a   2.0 KB   (3 个文件)");
    assert_eq!(storage_label(None, &entries()[1]), "C:\\q\\b   5 B   (1 个文件)");
}

// --- commands and controls -------------------------------------------------

#[test]
fn commands_by_number() {
    for (id, command) in [
        (1001, Some(AppCommand::OpenFolder)),
        (2006, Some(AppCommand::OpenFolder)),
        (1002, Some(AppCommand::ShowSettings)),
        (1003, Some(AppCommand::Exit)),
        (2004, Some(AppCommand::Save)),
        (2005, Some(AppCommand::Hide)),
        (2009, Some(AppCommand::ScanStorage)),
        (2010, Some(AppCommand::ReleaseStorage)),
        (2011, Some(AppCommand::Login)),
        (2013, Some(AppCommand::ShowSettingsTab)),
        (2014, Some(AppCommand::ShowLogTab)),
        (2015, Some(AppCommand::RefreshLog)),
        (2016, Some(AppCommand::ClearLog)),
        (2001, None),
        (2012, None),
        (0, None),
    ] {
        assert_eq!(handle_command(id), command, "{id}");
        assert_eq!(handle_command(id + 3 * 0x10000), command, "{id}");
    }
    assert!(cancels_login(2012) && cancels_login(0x10000 + 2012) && !cancels_login(2011));
    assert_eq!(tray_command(0x203), Some(TrayCommand::ShowSettings));
    assert_eq!(tray_command(0x205), Some(TrayCommand::ShowMenu));
    assert_eq!(tray_command(0x7b), Some(TrayCommand::ShowMenu));
    assert_eq!(tray_command(0x200), None);
    assert_eq!(tray_tip(true), "夸克网盘 - 已挂载");
    assert_eq!(tray_tip(false), "夸克网盘 - 需要扫码登录");
    assert!(tray_tip(false).encode_utf16().count() < 128);
}

#[test]
fn controls_are_laid_out() {
    let mut c = config();
    c.account_nickname = "小明".into();
    let roots: Vec<(String, String)> = [("0", "全部文件"), ("5", "照片"), ("5", "相册"), ("7", "x")]
        .iter()
        .map(|(id, label)| (id.to_string(), label.to_string()))
        .collect();
    let controls = create_controls(&c, &roots);
    assert_eq!(controls.len(), 30);
    let by_role = |role: Role| controls.iter().find(|c| c.role == role).unwrap();
    assert_eq!(by_role(Role::AccountStatus).text, "小明");
    assert_eq!(by_role(Role::PathEdit).text, r"C:\Users\me\QuarkDrive");
    assert_eq!(by_role(Role::NameEdit).text, "网盘");
    assert!(by_role(Role::StartupCheck).checked);
    let choice = by_role(Role::RootChoice);
    assert_eq!(choice.lines, ["全部文件", "照片", "相册", "x"]);
    assert_eq!(choice.selected, 0);
    let mut other = config();
    other.start_on_login = false;
    other.remote_root_id = "5".into();
    for control in create_controls(&other, &roots) {
        assert!(!control.checked);
        if control.role == Role::RootChoice {
            assert_eq!(control.selected, 2);
        }
    }
    let save = by_role(Role::Save);
    assert_eq!((save.x, save.y, save.width, save.height, save.id), (436, 774, 112, 32, 2004));
    assert_eq!(save.kind, ControlKind::DefaultButton);
    for control in &controls {
        assert!(control.x + control.width <= 720 && control.y + control.height <= 862);
        if matches!(control.kind, ControlKind::Button | ControlKind::DefaultButton) {
            assert!(handle_command(control.id).is_some());
        }
    }
    let dialog = create_qr_controls();
    assert_eq!(dialog[0].text, "正在获取二维码…");
    assert!(cancels_login(dialog[1].id));
}

#[test]
fn tabs_show_their_controls() {
    assert!(set_tab(Role::LogText, true) && !set_tab(Role::LogText, false));
    assert!(set_tab(Role::LogClear, true) && set_tab(Role::LogRefresh, true));
    assert!(!set_tab(Role::Save, true) && set_tab(Role::Save, false));
    assert!(set_tab(Role::Plain, true) && set_tab(Role::Plain, false));
    assert!(set_tab(Role::AccountIcon, true));
}
