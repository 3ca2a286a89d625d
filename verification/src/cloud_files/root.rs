//! The sync root: what it is registered as, and whether it is.

use super::error::CloudError;
use super::placeholder::{identified, law_placeholder_names_its_item};
use crate::config::{Config, ConfigView};
use crate::path::{same_place, LocalPath};
use crate::quark::item::ItemView;
use crate::text::{ascii_lower, concat2, same_ignoring_ascii_case};
use vstd::prelude::*;

verus! {

/// The id under which the file explorer knows the sync root.
pub fn shell_sync_root_id() -> (r: String)
    ensures
        r@ == "QuarkDrive!Personal"@,
{
    "QuarkDrive!Personal".to_owned()
}

/// What the sync root is registered as.
#[derive(Debug)]
pub struct SyncRoot {
    pub id: String,
    pub path: String,
    pub display_name: String,
    pub icon: String,
    pub provider_name: String,
    pub sync_identity: String,
    pub root_identity: String,
}

/// What the sync root of a configuration is registered as, by the program that
/// lies at `executable`. Its icon is one of the program's resources, and the
/// root's identity is the remote directory that is mounted.
pub fn sync_root(config: &Config, executable: &str) -> (r: SyncRoot)
    ensures
        r.id@ == "QuarkDrive!Personal"@,
        r.path@ == config.mount_path.text@,
        r.display_name@ == config.remote_root_name@,
        r.icon@ == executable@ + ",-101"@,
        r.provider_name@ == "Quark Drive for Windows"@,
        r.sync_identity@ == "quarkdrive-windows-v1"@,
        r.root_identity@ == config.remote_root_id@,
{
    SyncRoot {
        id: shell_sync_root_id(),
        path: config.mount_path.text.clone(),
        display_name: config.remote_root_name.clone(),
        icon: concat2(executable, ",-101"),
        provider_name: "Quark Drive for Windows".to_owned(),
        sync_identity: "quarkdrive-windows-v1".to_owned(),
        root_identity: config.remote_root_id.clone(),
    }
}

/// Whether the mount is known and there.
#[derive(Debug)]
pub struct RegistrationStatus {
    pub shell_registered: bool,
    pub directory_exists: bool,
    pub sync_root_id: String,
}

/// Whether the mount is known and there.
pub fn registration_status(shell_registered: bool, directory_exists: bool) -> (r:
    RegistrationStatus)
    ensures
        r.shell_registered == shell_registered,
        r.directory_exists == directory_exists,
        r.sync_root_id@ == "QuarkDrive!Personal"@,
{
    RegistrationStatus { shell_registered, directory_exists, sync_root_id: shell_sync_root_id() }
}

/// Whether a path is the one that the sync root is registered with, if it is
/// registered. The case of ASCII letters does not count.
pub fn is_registered_sync_root_path(registered: &Option<String>, path: &LocalPath) -> (r: bool)
    ensures
        r == (*registered matches Some(root) && ascii_lower(root@) == ascii_lower(path.text@)),
{
    match registered {
        Some(root) => same_ignoring_ascii_case(root.as_str(), path.text.as_str()),
        None => false,
    }
}

/// How unregistering has ended. The explorer is asked only if it knows the sync
/// root; taking it out there takes it out of the file system too, so that one
/// success is enough.
pub fn unregister(shell: Option<bool>, file_system: bool) -> (r: Result<(), CloudError>)
    ensures
        r == (if shell == Some(false) && !file_system {
            Err::<(), CloudError>(CloudError::NotUnregistered)
        } else {
            Ok::<(), CloudError>(())
        }),
{
    let shell_ok = match shell {
        Some(ok) => ok,
        None => true,
    };
    if shell_ok || file_system {
        Ok(())
    } else {
        Err(CloudError::NotUnregistered)
    }
}

/// A sync root that is registered with a path is recognised by that path, and by
/// no path at another place.
pub proof fn law_registered_path_is_recognised(registered: LocalPath, path: LocalPath, r: bool)
    requires
        call_ensures(is_registered_sync_root_path, (&Some(registered.text), &path), r),
    ensures
        r == same_place(registered@, path@),
{
}

/// The root of the mount is identified by the remote directory that is mounted,
/// for every configuration without a fault.
pub proof fn law_root_is_identified(config: ConfigView)
    requires
        config.fault() is None,
    ensures
        identified(vstd::utf8::encode_utf8(config.remote_root_id)) == Ok::<Seq<char>, CloudError>(
            config.remote_root_id,
        ),
{
    let item = ItemView {
        id: config.remote_root_id,
        parent_id: Seq::empty(),
        name: Seq::empty(),
        is_directory: true,
        size: 0,
        created_at_ms: 0,
        modified_at_ms: 0,
        version: Seq::empty(),
    };
    crate::text::lemma_trimmed(config.remote_root_id);
    law_placeholder_names_its_item(item);
}

} // verus!
