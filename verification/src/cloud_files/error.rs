//! What can go wrong with the mount.

use crate::text::concat2;
use vstd::prelude::*;

verus! {

/// Why a request of the file system was not met.
#[derive(Debug, PartialEq, Eq)]
pub enum CloudError {
    /// The placeholder does not say which remote file it stands for.
    NoIdentity,
    /// The placeholder's identity is not a text.
    IdentityNotUtf8,
    /// Data was asked for at a negative offset.
    InvalidOffset,
    /// A negative amount of data was asked for.
    InvalidLength,
    /// A deletion was to be taken back.
    UndeleteUnsupported,
    /// The sync root stayed registered.
    NotUnregistered,
    /// The file does not lie in the mount directory.
    OutsideMount,
    /// A directory could not be opened.
    Unscannable(String),
    /// An entry of a directory could not be read, for this reason.
    Unreadable(String),
}

impl CloudError {
    /// The line that is shown to the user.
    pub open spec fn text(self) -> Seq<char> {
        match self {
            CloudError::NoIdentity => "占位文件没有远端 ID"@,
            CloudError::IdentityNotUtf8 => "远端 ID 不是 UTF-8"@,
            CloudError::InvalidOffset => "无效的数据偏移"@,
            CloudError::InvalidLength => "无效的数据长度"@,
            CloudError::UndeleteUnsupported => "夸克网盘暂不支持从资源管理器撤销删除"@,
            CloudError::NotUnregistered => "从资源管理器注销夸克网盘失败"@,
            CloudError::OutsideMount => "目标文件不在夸克挂载目录中"@,
            CloudError::Unscannable(path) => "无法扫描 "@ + path@,
            CloudError::Unreadable(reason) => reason@,
        }
    }

    /// The line that is shown to the user.
    pub fn message(&self) -> (r: String)
        ensures
            r@ == self.text(),
    {
        match self {
            CloudError::NoIdentity => "占位文件没有远端 ID".to_owned(),
            CloudError::IdentityNotUtf8 => "远端 ID 不是 UTF-8".to_owned(),
            CloudError::InvalidOffset => "无效的数据偏移".to_owned(),
            CloudError::InvalidLength => "无效的数据长度".to_owned(),
            CloudError::UndeleteUnsupported => "夸克网盘暂不支持从资源管理器撤销删除".to_owned(),
            CloudError::NotUnregistered => "从资源管理器注销夸克网盘失败".to_owned(),
            CloudError::OutsideMount => "目标文件不在夸克挂载目录中".to_owned(),
            CloudError::Unscannable(path) => concat2("无法扫描 ", path.as_str()),
            CloudError::Unreadable(reason) => reason.clone(),
        }
    }
}

} // verus!
