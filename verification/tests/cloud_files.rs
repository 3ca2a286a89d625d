//! Placeholders, the sync root and the local space.

use quarkdrive_windows::cloud_files::error::CloudError;
use quarkdrive_windows::cloud_files::placeholder::{
    data_transfer, delete_completion, fetch_data, identity, metadata, notify_delete, placeholders,
    unix_ms_to_filetime, Completion,
};
use quarkdrive_windows::cloud_files::root::{
    is_registered_sync_root_path, registration_status, shell_sync_root_id, sync_root, unregister,
};
use quarkdrive_windows::cloud_files::storage::{
    check_target, release_local_file, release_local_paths, release_local_storage,
    scan_local_storage, scan_local_storage_entries, FoundChild, FoundDirectory, FoundEntry,
    FoundFile, LocalStorageStats, PlaceholderState,
};
use quarkdrive_windows::config::Config;
use quarkdrive_windows::path::{LocalPath, PathComponent};
use quarkdrive_windows::quark::item::RemoteItem;

fn item() -> RemoteItem {
    RemoteItem {
        id: "fid-1".to_owned(),
        parent_id: "0".to_owned(),
        name: "a?.txt".to_owned(),
        is_directory: false,
        size: 42,
        created_at_ms: 1,
        modified_at_ms: 2,
        version: String::new(),
    }
}

fn path(names: &[&str]) -> LocalPath {
    let mut components = vec![PathComponent::Prefix("C:".to_owned()), PathComponent::RootDir];
    components.extend(names.iter().map(|n| PathComponent::Normal(n.to_string())));
    LocalPath { text: format!("C:\\{}", names.join("\\")), absolute: true, components }
}

fn file(name: &str, length: u64, on_disk: i64, pinned: bool) -> FoundEntry {
    FoundEntry::File(FoundFile {
        path: name.to_owned(),
        length: Ok(length),
        placeholder: Some(PlaceholderState { on_disk, pinned }),
    })
}

fn directory(name: &str, entries: Vec<FoundEntry>) -> FoundDirectory {
    FoundDirectory { path: name.to_owned(), entries: Some(entries) }
}

#[test]
fn converts_epoch() {
    assert_eq!(unix_ms_to_filetime(0), 116_444_736_000_000_000);
}

#[test]
fn file_times_saturate() {
    for ms in [
        -1,
        1,
        1_700_000_000_000,
        922_337_203_685_477,
        922_337_203_685_478,
        910_692_730_085_478,
        -922_337_203_685_477,
        -922_337_203_685_478,
        i64::MIN,
        i64::MAX,
    ] {
        assert_eq!(
            unix_ms_to_filetime(ms),
            ms.saturating_mul(10_000).saturating_add(116_444_736_000_000_000),
            "{ms}"
        );
    }
}

#[test]
fn metadata_of_files_and_directories() {
    let shown = metadata(&item());
    assert_eq!(shown.creation_time, unix_ms_to_filetime(1));
    assert_eq!(shown.last_write_time, unix_ms_to_filetime(2));
    assert_eq!(shown.last_access_time, unix_ms_to_filetime(2));
    assert_eq!(shown.change_time, unix_ms_to_filetime(2));
    assert_eq!((shown.attributes, shown.size), (0x80, 42));
    let mut big = item();
    big.size = u64::MAX;
    assert_eq!(metadata(&big).size, i64::MAX);
    let mut folder = item();
    folder.is_directory = true;
    assert_eq!(metadata(&folder).attributes, 0x10);
}

#[test]
fn placeholders_have_legal_names_and_ids() {
    let made = placeholders(&vec![item(), item()]);
    assert_eq!(made.len(), 2);
    let mut name: Vec<u16> = "a＿.txt".encode_utf16().collect();
    name.push(0);
    assert_eq!(made[0].name, name);
    assert_eq!(made[0].identity, b"fid-1");
    assert_eq!(made[1].metadata.size, 42);
    assert_eq!(identity(made[0].identity.clone()).unwrap(), "fid-1");
}

#[test]
fn identities_are_texts() {
    assert_eq!(identity("夸".as_bytes().to_vec()).unwrap(), "夸");
    assert_eq!(identity(Vec::new()), Err(CloudError::NoIdentity));
    assert_eq!(identity(vec![0xff]), Err(CloudError::IdentityNotUtf8));
    assert_eq!(identity(vec![0xe5, 0xa4]), Err(CloudError::IdentityNotUtf8));
}

#[test]
fn data_is_fetched_by_range() {
    let fetch = fetch_data(b"f".to_vec(), 10, 5).unwrap();
    assert_eq!((fetch.file_id.as_str(), fetch.start, fetch.end), ("f", 10, 15));
    let fetch = fetch_data(b"f".to_vec(), i64::MAX, i64::MAX).unwrap();
    assert_eq!(fetch.end, u64::MAX - 1);
    assert!(matches!(fetch_data(b"f".to_vec(), -1, -1), Err(CloudError::InvalidOffset)));
    assert!(matches!(fetch_data(b"f".to_vec(), 0, -1), Err(CloudError::InvalidLength)));
    assert!(matches!(fetch_data(Vec::new(), -1, 0), Err(CloudError::NoIdentity)));
    let transfer = data_transfer(10, Some(vec![1, 2]));
    assert_eq!((transfer.offset, transfer.completion), (10, Completion::Success));
    assert_eq!(transfer.data, vec![1, 2]);
    let transfer = data_transfer(10, None);
    assert_eq!((transfer.offset, transfer.completion), (0, Completion::Unsuccessful));
    assert!(transfer.data.is_empty());
}

#[test]
fn deletions_go_to_the_remote_side_first() {
    assert_eq!(notify_delete(false, b"f".to_vec()).unwrap(), "f");
    assert_eq!(notify_delete(true, b"f".to_vec()), Err(CloudError::UndeleteUnsupported));
    assert_eq!(notify_delete(false, Vec::new()), Err(CloudError::NoIdentity));
    assert_eq!(delete_completion(true), Completion::Success);
    assert_eq!(delete_completion(false), Completion::CloudFileUnsuccessful);
}

#[test]
fn cloud_messages() {
    assert_eq!(CloudError::NoIdentity.message(), "占位文件没有远端 ID");
    assert_eq!(CloudError::IdentityNotUtf8.message(), "远端 ID 不是 UTF-8");
    assert_eq!(CloudError::InvalidOffset.message(), "无效的数据偏移");
    assert_eq!(CloudError::InvalidLength.message(), "无效的数据长度");
    assert_eq!(
        CloudError::UndeleteUnsupported.message(),
        "夸克网盘暂不支持从资源管理器撤销删除"
    );
    assert_eq!(CloudError::NotUnregistered.message(), "从资源管理器注销夸克网盘失败");
    assert_eq!(CloudError::OutsideMount.message(), "目标文件不在夸克挂载目录中");
    assert_eq!(CloudError::Unscannable("C:\\q".into()).message(), "无法扫描 C:\\q");
    assert_eq!(CloudError::Unreadable("r".into()).message(), "r");
}

#[test]
fn the_sync_root_is_described() {
    let config = Config::initial("k=v".into(), path(&["Q"]), "77".into(), "我的网盘".into());
    let root = sync_root(&config, "C:\\q.exe");
    assert_eq!(root.id, "QuarkDrive!Personal");
    assert_eq!(root.path, "C:\\Q");
    assert_eq!(root.display_name, "我的网盘");
    assert_eq!(root.icon, "C:\\q.exe,-101");
    assert_eq!(root.provider_name, "Quark Drive for Windows");
    assert_eq!(root.sync_identity, "quarkdrive-windows-v1");
    assert_eq!(root.root_identity, "77");
    assert_eq!(shell_sync_root_id(), "QuarkDrive!Personal");
    let status = registration_status(true, false);
    assert!(status.shell_registered && !status.directory_exists);
}

#[test]
fn the_registered_path_is_recognised() {
    assert!(is_registered_sync_root_path(&Some("c:\\q".into()), &path(&["Q"])));
    assert!(!is_registered_sync_root_path(&Some("c:\\q\\".into()), &path(&["Q"])));
    assert!(!is_registered_sync_root_path(&None, &path(&["Q"])));
}

#[test]
fn one_success_unregisters() {
    assert!(unregister(None, false).is_ok());
    assert!(unregister(Some(true), false).is_ok());
    assert!(unregister(Some(false), true).is_ok());
    assert_eq!(unregister(Some(false), false), Err(CloudError::NotUnregistered));
}

#[test]
fn local_space_is_measured() {
    let root = directory(
        "root",
        vec![
            file("a", 100, 60, false),
            FoundEntry::Directory(directory(
                "sub",
                vec![file("b", 50, 50, true), FoundEntry::Failed("x".into()), file("c", 9, 9, false)],
            )),
            FoundEntry::Other,
            FoundEntry::Directory(FoundDirectory { path: "closed".into(), entries: None }),
            FoundEntry::File(FoundFile { path: "d".into(), length: Ok(7), placeholder: None }),
            file("e", 30, -4, false),
        ],
    );
    let stats = scan_local_storage(&root).unwrap();
    let expected = LocalStorageStats {
        logical_bytes: 187,
        local_bytes: 110,
        releasable_bytes: 60,
        file_count: 4,
        releasable_files: 1,
        skipped_files: 1,
    };
    assert_eq!(stats, expected);
    let (paths, ended) = release_local_storage(&root);
    assert_eq!(paths, vec!["a".to_owned()]);
    assert!(ended.is_ok());
}

#[test]
fn measuring_saturates() {
    let root = directory("r", vec![file("a", u64::MAX, i64::MAX, false), file("b", 1, 1, false)]);
    let stats = scan_local_storage(&root).unwrap();
    assert_eq!(stats.logical_bytes, u64::MAX);
    assert_eq!(stats.local_bytes, i64::MAX as u64 + 1);
    assert_eq!(LocalStorageStats::default().file_count, 0);
}

#[test]
fn a_directory_that_fails_ends_there() {
    let closed = FoundDirectory { path: "C:\\q".into(), entries: None };
    assert_eq!(scan_local_storage(&closed), Err(CloudError::Unscannable("C:\\q".into())));
    let broken = directory("r", vec![file("a", 1, 1, false), FoundEntry::Failed("io".into())]);
    assert_eq!(scan_local_storage(&broken), Err(CloudError::Unreadable("io".into())));
    let (paths, ended) = release_local_storage(&broken);
    assert_eq!(paths, vec!["a".to_owned()]);
    assert_eq!(ended, Err(CloudError::Unreadable("io".into())));
    let unmeasured = directory(
        "r",
        vec![
            FoundEntry::File(FoundFile {
                path: "a".into(),
                length: Err("no metadata".into()),
                placeholder: Some(PlaceholderState { on_disk: 5, pinned: false }),
            }),
            file("b", 1, 1, false),
        ],
    );
    assert_eq!(scan_local_storage(&unmeasured), Err(CloudError::Unreadable("no metadata".into())));
    let (paths, ended) = release_local_storage(&unmeasured);
    assert_eq!(paths, vec!["a".to_owned(), "b".to_owned()]);
    assert!(ended.is_ok());
}

#[test]
fn one_file_is_released_if_it_may_be() {
    let root = path(&["Q"]);
    let inside = path(&["Q", "a", "b.txt"]);
    let free = Some(PlaceholderState { on_disk: 5, pinned: false });
    assert_eq!(release_local_file(&root, &inside, &free), Ok(true));
    let pinned = Some(PlaceholderState { on_disk: 5, pinned: true });
    assert_eq!(release_local_file(&root, &inside, &pinned), Ok(false));
    let empty = Some(PlaceholderState { on_disk: 0, pinned: false });
    assert_eq!(release_local_file(&root, &inside, &empty), Ok(false));
    assert_eq!(release_local_file(&root, &inside, &None), Ok(false));
    assert_eq!(
        release_local_file(&root, &path(&["R", "x"]), &free),
        Err(CloudError::OutsideMount)
    );
    let mut leaving = path(&["Q", "f"]);
    leaving.text = r"C:\Q\..\f".to_owned();
    leaving.components.insert(3, PathComponent::ParentDir);
    assert_eq!(release_local_file(&root, &leaving, &free), Err(CloudError::OutsideMount));
    assert_eq!(check_target(&root, &leaving), Err(CloudError::OutsideMount));
    let mut returning = leaving;
    returning.text = r"C:\Q\..\Q\f".to_owned();
    returning.components.insert(4, PathComponent::Normal("Q".to_owned()));
    assert_eq!(release_local_file(&root, &returning, &free), Ok(true));
    assert_eq!(check_target(&root, &returning), Ok(()));
    assert_eq!(release_local_file(&root, &root, &free), Err(CloudError::OutsideMount));
    assert_eq!(check_target(&root, &inside), Ok(()));
}

#[test]
fn releasing_frees_what_was_counted() {
    let before = directory("r", vec![file("a", 9, 5, false), file("b", 9, 6, true)]);
    let after = directory("r", vec![file("a", 9, 0, false), file("b", 9, 6, true)]);
    let counted = scan_local_storage(&before).unwrap();
    let freed = scan_local_storage(&after).unwrap();
    assert_eq!(freed.releasable_bytes, 0);
    assert_eq!(freed.local_bytes, counted.local_bytes - counted.releasable_bytes);
    assert_eq!(freed.logical_bytes, counted.logical_bytes);
}

#[test]
fn local_space_by_entries() {
    let children = vec![
        FoundChild {
            path: path(&["Q", "a"]),
            entry: FoundEntry::Directory(directory(
                "a",
                vec![file("1", 9, 5, false), file("2", 9, 6, true), file("3", 9, 7, false)],
            )),
        },
        FoundChild { path: path(&["Q", "b"]), entry: file("b", 9, 4, true) },
        FoundChild { path: path(&["Q", "c"]), entry: file("c", 9, 3, false) },
        FoundChild { path: path(&["Q", "d"]), entry: FoundEntry::Failed("x".into()) },
    ];
    let entries = scan_local_storage_entries(&children);
    let listed: Vec<_> = entries
        .iter()
        .map(|e| (e.path.text.as_str(), e.releasable_bytes, e.file_count))
        .collect();
    assert_eq!(listed, vec![(r"C:\Q\a", 12, 2), (r"C:\Q\c", 3, 1)]);
    let selected = children.into_iter().map(|child| child.entry).collect();
    assert_eq!(release_local_paths(&selected), ["1", "3", "c"]);
}
