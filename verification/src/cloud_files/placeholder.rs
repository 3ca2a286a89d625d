//! Placeholders: what the file system shows for remote files, and what it asks
//! for when they are opened or deleted.

use super::error::CloudError;
use crate::names::{forbidden, law_safe_name_is_legal, legal_name, safe_name, windows_name};
use crate::quark::item::{ItemView, RemoteItem};
use crate::text::bytes_of;
use crate::wide::{utf16, utf16_units, wide_str};
use vstd::prelude::*;
use vstd::utf8::{encode_utf8, valid_utf8};

verus! {

// ---------------------------------------------------------------------------
// Showing remote files
// ---------------------------------------------------------------------------

/// The attribute of a directory.
pub const DIRECTORY_ATTRIBUTE: u32 = 0x10;

/// The attribute of a file that has no other.
pub const NORMAL_ATTRIBUTE: u32 = 0x80;

/// `n` kept between the smallest and the largest number that fits.
pub open spec fn clamped(n: int) -> i64 {
    if n > i64::MAX {
        i64::MAX
    } else if n < i64::MIN {
        i64::MIN
    } else {
        n as i64
    }
}

/// A time in milliseconds from the start of 1970, in steps of 100 nanoseconds
/// from the start of 1601, as far as that fits.
pub open spec fn filetime(ms: int) -> i64 {
    clamped(clamped(ms * 10000) + 116444736000000000)
}

/// A time in milliseconds from the start of 1970, in steps of 100 nanoseconds
/// from the start of 1601, as far as that fits.
pub fn unix_ms_to_filetime(ms: i64) -> (r: i64)
    ensures
        r == filetime(ms as int),
{
    let scaled: i64 = if ms > 922337203685477 {
        i64::MAX
    } else if ms < -922337203685477 {
        i64::MIN
    } else {
        ms * 10000
    };
    if scaled > i64::MAX - 116444736000000000 {
        i64::MAX
    } else {
        scaled + 116444736000000000
    }
}

/// Later times stay later, or as late.
pub proof fn law_filetime_keeps_order(a: int, b: int)
    requires
        a <= b,
    ensures
        filetime(a) <= filetime(b),
{
}

/// Within about 28 thousand years of 1970, a time is converted exactly: no two
/// are mixed up, and a millisecond is ten thousand steps.
pub proof fn law_filetime_is_exact(ms: int)
    requires
        -922337203685477 <= ms <= 910692730085477,
    ensures
        filetime(ms) == ms * 10000 + 116444736000000000,
{
}

/// What the file system shows of a file or directory.
#[derive(Clone, Copy, Debug, PartialEq, Eq, Structural)]
pub struct FileMetadata {
    pub creation_time: i64,
    pub last_access_time: i64,
    pub last_write_time: i64,
    pub change_time: i64,
    pub attributes: u32,
    pub size: i64,
}

/// What the file system shows of a remote item.
pub open spec fn shown(item: ItemView) -> FileMetadata {
    FileMetadata {
        creation_time: filetime(item.created_at_ms as int),
        last_access_time: filetime(item.modified_at_ms as int),
        last_write_time: filetime(item.modified_at_ms as int),
        change_time: filetime(item.modified_at_ms as int),
        attributes: if item.is_directory {
            DIRECTORY_ATTRIBUTE
        } else {
            NORMAL_ATTRIBUTE
        },
        size: clamped(item.size as int),
    }
}

/// What the file system shows of a remote item.
pub fn metadata(item: &RemoteItem) -> (r: FileMetadata)
    ensures
        r == shown(item@),
{
    let modified: i64 = unix_ms_to_filetime(item.modified_at_ms);
    let size: i64 = if item.size > 0x7fff_ffff_ffff_ffff {
        i64::MAX
    } else {
        item.size as i64
    };
    FileMetadata {
        creation_time: unix_ms_to_filetime(item.created_at_ms),
        last_access_time: modified,
        last_write_time: modified,
        change_time: modified,
        attributes: if item.is_directory {
            DIRECTORY_ATTRIBUTE
        } else {
            NORMAL_ATTRIBUTE
        },
        size,
    }
}

/// A placeholder that is to be made.
#[derive(Debug)]
pub struct Placeholder {
    /// Its name, as a wide string.
    pub name: Vec<u16>,
    /// The remote file that it stands for.
    pub identity: Vec<u8>,
    pub metadata: FileMetadata,
}

/// A [`Placeholder`] with its lists as sequences.
pub struct PlaceholderView {
    pub name: Seq<u16>,
    pub identity: Seq<u8>,
    pub metadata: FileMetadata,
}

impl View for Placeholder {
    type V = PlaceholderView;

    open spec fn view(&self) -> PlaceholderView {
        PlaceholderView { name: self.name@, identity: self.identity@, metadata: self.metadata }
    }
}

/// The placeholder of a remote item: a name that the file system takes, the
/// item's id, and what is shown of it.
pub open spec fn placeholder_of(item: ItemView) -> PlaceholderView {
    PlaceholderView {
        name: utf16(safe_name(item.name)).push(0),
        identity: encode_utf8(item.id),
        metadata: shown(item),
    }
}

/// The placeholders of the items in a directory, in their order.
pub fn placeholders(items: &Vec<RemoteItem>) -> (r: Vec<Placeholder>)
    ensures
        r@.len() == items@.len(),
        forall|i: int| 0 <= i < r@.len() ==> (#[trigger] r@[i])@ == placeholder_of(items@[i]@),
{
    let mut out: Vec<Placeholder> = Vec::new();
    let mut i: usize = 0;
    while i < items.len()
        invariant
            i <= items@.len(),
            out@.len() == i,
            forall|j: int| 0 <= j < i ==> (#[trigger] out@[j])@ == placeholder_of(items@[j]@),
        decreases items@.len() - i,
    {
        let item = &items[i];
        let name = windows_name(item.name.as_str());
        out.push(
            Placeholder {
                name: wide_str(name.as_str()),
                identity: bytes_of(item.id.as_str()),
                metadata: metadata(item),
            },
        );
        i += 1;
    }
    out
}

proof fn lemma_no_zero_unit(s: Seq<char>)
    requires
        forall|i: int| 0 <= i < s.len() ==> #[trigger] s[i] != '\0',
    ensures
        forall|i: int| 0 <= i < utf16(s).len() ==> #[trigger] utf16(s)[i] != 0,
    decreases s.len(),
{
    if s.len() > 0 {
        let init = s.drop_last();
        assert forall|i: int| 0 <= i < init.len() implies #[trigger] init[i] != '\0' by {
            assert(init[i] == s[i]);
        }
        lemma_no_zero_unit(init);
        crate::wide::lemma_units(s.last());
        assert(s[s.len() - 1] != '\0');
        let head = utf16(init);
        let units = utf16_units(s.last());
        assert forall|i: int| 0 <= i < utf16(s).len() implies #[trigger] utf16(s)[i] != 0 by {
            if i < head.len() {
                assert(utf16(s)[i] == head[i]);
            } else {
                assert(utf16(s)[i] == units[i - head.len()]);
            }
        }
    }
}

/// Whatever a remote item is called, its placeholder has a name that Windows
/// takes, and the zero at its end is the only one in it.
pub proof fn law_placeholder_name_is_legal(item: ItemView)
    ensures
        ({
            let name = placeholder_of(item).name;
            &&& legal_name(safe_name(item.name))
            &&& name.drop_last() == utf16(safe_name(item.name))
            &&& name.last() == 0
            &&& forall|i: int| 0 <= i < name.len() - 1 ==> #[trigger] name[i] != 0
        }),
{
    let shown = safe_name(item.name);
    let name = placeholder_of(item).name;
    law_safe_name_is_legal(item.name);
    assert forall|i: int| 0 <= i < shown.len() implies #[trigger] shown[i] != '\0' by {
        assert(!forbidden(shown[i]));
    }
    lemma_no_zero_unit(shown);
    assert(name.drop_last() =~= utf16(shown));
}

/// Different remote ids stay different in the placeholders, so that no request
/// for one file is answered with another.
pub proof fn law_placeholders_keep_ids_apart(a: ItemView, b: ItemView)
    requires
        placeholder_of(a).identity == placeholder_of(b).identity,
    ensures
        a.id == b.id,
{
    broadcast use vstd::utf8::encode_utf8_decode_utf8;

    assert(vstd::utf8::decode_utf8(encode_utf8(a.id)) == a.id);
    assert(vstd::utf8::decode_utf8(encode_utf8(b.id)) == b.id);
}

// ---------------------------------------------------------------------------
// Being asked about placeholders
// ---------------------------------------------------------------------------

/// The error of `String::from_utf8`.
#[verifier::external_type_specification]
#[verifier::external_body]
pub struct ExFromUtf8Error(std::string::FromUtf8Error);

/// `String::from_utf8` gives the text that the bytes encode, if they are UTF-8,
/// and an error if they are not.
pub assume_specification[ String::from_utf8 ](vec: Vec<u8>) -> (r: Result<
    String,
    std::string::FromUtf8Error,
>)
    ensures
        match r {
            Ok(s) => encode_utf8(s@) == vec@,
            Err(_) => !valid_utf8(vec@),
        },
;

/// The remote file that a placeholder's identity names.
pub open spec fn identified(identity: Seq<u8>) -> Result<Seq<char>, CloudError> {
    if identity.len() == 0 {
        Err(CloudError::NoIdentity)
    } else if valid_utf8(identity) {
        Ok(vstd::utf8::decode_utf8(identity))
    } else {
        Err(CloudError::IdentityNotUtf8)
    }
}

/// Whether an answer is the remote file that was asked for, or the error.
pub open spec fn names_file(r: Result<String, CloudError>, file: Result<Seq<char>, CloudError>) -> bool {
    match (r, file) {
        (Ok(s), Ok(id)) => s@ == id,
        (Err(e), Err(x)) => e == x,
        _ => false,
    }
}

/// The remote file that a placeholder's identity names. The identity is empty
/// where there is none.
pub fn identity(bytes: Vec<u8>) -> (r: Result<String, CloudError>)
    ensures
        names_file(r, identified(bytes@)),
{
    broadcast use {vstd::utf8::encode_utf8_valid_utf8, vstd::utf8::encode_utf8_decode_utf8};

    if bytes.len() == 0 {
        return Err(CloudError::NoIdentity);
    }
    match String::from_utf8(bytes) {
        Ok(id) => Ok(id),
        Err(_) => Err(CloudError::IdentityNotUtf8),
    }
}

/// The identity that a placeholder was made with names the item that it was made
/// for, wherever the item has an id.
pub proof fn law_placeholder_names_its_item(item: ItemView)
    requires
        item.id.len() > 0,
    ensures
        identified(placeholder_of(item).identity) == Ok::<Seq<char>, CloudError>(item.id),
{
    broadcast use {vstd::utf8::encode_utf8_valid_utf8, vstd::utf8::encode_utf8_decode_utf8};

    let bytes = encode_utf8(item.id);
    assert(vstd::utf8::decode_utf8(bytes) == item.id);
    if bytes.len() == 0 {
        assert(vstd::utf8::decode_utf8(bytes).len() == 0);
    }
}

/// The part of a remote file that is asked for.
#[derive(Debug)]
pub struct FetchRequest {
    pub file_id: String,
    pub start: u64,
    pub end: u64,
}

/// The part of a remote file that is asked for.
pub fn fetch_data(identity_bytes: Vec<u8>, offset: i64, length: i64) -> (r: Result<
    FetchRequest,
    CloudError,
>)
    ensures
        match identified(identity_bytes@) {
            Err(e) => r == Err::<FetchRequest, CloudError>(e),
            Ok(id) => if offset < 0 {
                r == Err::<FetchRequest, CloudError>(CloudError::InvalidOffset)
            } else if length < 0 {
                r == Err::<FetchRequest, CloudError>(CloudError::InvalidLength)
            } else {
                r matches Ok(fetch) && {
                    &&& fetch.file_id@ == id
                    &&& fetch.start == offset
                    &&& fetch.end == offset + length
                }
            },
        },
{
    let file_id = match identity(identity_bytes) {
        Ok(id) => id,
        Err(e) => {
            return Err(e);
        },
    };
    if offset < 0 {
        return Err(CloudError::InvalidOffset);
    }
    if length < 0 {
        return Err(CloudError::InvalidLength);
    }
    let start: u64 = offset as u64;
    Ok(FetchRequest { file_id, start, end: start + length as u64 })
}

/// The remote file that is to be deleted.
pub fn notify_delete(undelete: bool, identity_bytes: Vec<u8>) -> (r: Result<String, CloudError>)
    ensures
        names_file(
            r,
            if undelete {
                Err(CloudError::UndeleteUnsupported)
            } else {
                identified(identity_bytes@)
            },
        ),
{
    if undelete {
        return Err(CloudError::UndeleteUnsupported);
    }
    identity(identity_bytes)
}

/// How a request of the file system is answered.
#[derive(Clone, Copy, Debug, PartialEq, Eq, Structural)]
pub enum Completion {
    /// It was met.
    Success,
    /// It was not met.
    Unsuccessful,
    /// The remote side did not meet it.
    CloudFileUnsuccessful,
}

/// How a deletion is answered: the local file goes only if the remote one went.
pub fn delete_completion(deleted: bool) -> (r: Completion)
    ensures
        r == (if deleted {
            Completion::Success
        } else {
            Completion::CloudFileUnsuccessful
        }),
{
    if deleted {
        Completion::Success
    } else {
        Completion::CloudFileUnsuccessful
    }
}

/// The data that is handed over, and where it belongs.
#[derive(Debug)]
pub struct DataTransfer {
    pub offset: i64,
    pub data: Vec<u8>,
    pub completion: Completion,
}

/// What is handed over once a download has ended: the data at the place that was
/// asked for, or nothing at the start.
pub fn data_transfer(offset: i64, downloaded: Option<Vec<u8>>) -> (r: DataTransfer)
    ensures
        match downloaded {
            Some(data) => r.offset == offset && r.data == data && r.completion
                == Completion::Success,
            None => r.offset == 0 && r.data@.len() == 0 && r.completion
                == Completion::Unsuccessful,
        },
{
    match downloaded {
        Some(data) => DataTransfer { offset, data, completion: Completion::Success },
        None => DataTransfer {
            offset: 0,
            data: Vec::new(),
            completion: Completion::Unsuccessful,
        },
    }
}

} // verus!
