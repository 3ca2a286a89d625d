//! What the server says of files: replies, their envelope, and remote items.

use super::error::{ErrorView, QuarkError};
use crate::digits::{
    decimal, decimal_i64, decimal_u64, is_digit, law_decimal_reads_back, lemma_decimal_is_digits, signed_decimal,
};
use crate::names::{internal_name, is_internal_name};
use crate::text::concat3;
use vstd::prelude::*;

verus! {

// ---------------------------------------------------------------------------
// Types
// ---------------------------------------------------------------------------

/// A file or directory of the cloud drive.
#[derive(Debug, PartialEq, Eq)]
pub struct RemoteItem {
    pub id: String,
    pub parent_id: String,
    pub name: String,
    pub is_directory: bool,
    pub size: u64,
    pub created_at_ms: i64,
    pub modified_at_ms: i64,
    pub version: String,
}

/// A [`RemoteItem`] with its texts as sequences of characters.
pub struct ItemView {
    pub id: Seq<char>,
    pub parent_id: Seq<char>,
    pub name: Seq<char>,
    pub is_directory: bool,
    pub size: u64,
    pub created_at_ms: i64,
    pub modified_at_ms: i64,
    pub version: Seq<char>,
}

impl View for RemoteItem {
    type V = ItemView;

    open spec fn view(&self) -> ItemView {
        ItemView {
            id: self.id@,
            parent_id: self.parent_id@,
            name: self.name@,
            is_directory: self.is_directory,
            size: self.size,
            created_at_ms: self.created_at_ms,
            modified_at_ms: self.modified_at_ms,
            version: self.version@,
        }
    }
}

/// The views of a list of items.
pub open spec fn item_views(items: Seq<RemoteItem>) -> Seq<ItemView> {
    items.map_values(|item: RemoteItem| item@)
}

impl Clone for RemoteItem {
    fn clone(&self) -> (r: RemoteItem)
        ensures
            r@ == self@,
    {
        RemoteItem {
            id: self.id.clone(),
            parent_id: self.parent_id.clone(),
            name: self.name.clone(),
            is_directory: self.is_directory,
            size: self.size,
            created_at_ms: self.created_at_ms,
            modified_at_ms: self.modified_at_ms,
            version: self.version.clone(),
        }
    }
}

/// The frame that replies come in.
pub struct Envelope<T> {
    pub status: Option<i64>,
    pub code: i64,
    pub message: String,
    pub data: Option<T>,
}

/// One entry of a directory listing, as the server writes it.
pub struct RawItem {
    pub fid: Option<String>,
    pub file_name: Option<String>,
    pub dir: bool,
    pub size: u64,
    pub created_at: i64,
    pub updated_at: i64,
    pub content_hash: Option<String>,
}

/// One page of a directory listing.
pub struct ListData {
    pub list: Vec<RawItem>,
}

/// Where a file can be downloaded from.
pub struct DownloadData {
    pub download_url: String,
}

/// The authorisation of one upload request.
pub struct UploadAuthData {
    pub auth_key: String,
}

// ---------------------------------------------------------------------------
// The envelope
// ---------------------------------------------------------------------------

impl<T> Envelope<T> {
    /// The server refused: its status is there and not 200, or its code is not 0.
    pub open spec fn refused(&self) -> bool {
        (self.status is Some && self.status->0 != 200) || self.code != 0
    }

    /// The error of a refusal: the code counts, and the status if the code is 0.
    pub open spec fn refusal(&self) -> ErrorView {
        ErrorView::Api(
            if self.code != 0 {
                self.code as int
            } else {
                match self.status {
                    Some(status) => status as int,
                    None => 0,
                }
            },
            self.message@,
        )
    }

    /// The data of a reply that the server did not refuse.
    pub fn into_data(self) -> (r: Result<T, QuarkError>)
        ensures
            match r {
                Ok(data) => !self.refused() && self.data == Some(data),
                Err(e) => if self.refused() {
                    e@ == self.refusal()
                } else {
                    self.data is None && e@ == ErrorView::Malformed("data"@)
                },
            },
    {
        let bad_status: bool = match self.status {
            Some(status) => status != 200,
            None => false,
        };
        if bad_status || self.code != 0 {
            let code: i64 = if self.code != 0 {
                self.code
            } else {
                match self.status {
                    Some(status) => status,
                    None => 0,
                }
            };
            return Err(QuarkError::Api { code, message: self.message });
        }
        match self.data {
            Some(data) => Ok(data),
            None => Err(QuarkError::Malformed("data")),
        }
    }
}

// ---------------------------------------------------------------------------
// Entries
// ---------------------------------------------------------------------------

/// The version text of a file: its time, size and hash, with colons between.
pub open spec fn version_text(modified_at: int, size: nat, hash: Seq<char>) -> Seq<char> {
    signed_decimal(modified_at) + ":"@ + decimal(size) + ":"@ + hash
}

/// The version text of a file.
pub fn version_of(modified_at: i64, size: u64, hash: &str) -> (r: String)
    ensures
        r@ == version_text(modified_at as int, size as nat, hash@),
{
    let time = decimal_i64(modified_at);
    let bytes = decimal_u64(size);
    let head = concat3(time.as_str(), ":", bytes.as_str());
    concat3(head.as_str(), ":", hash)
}

/// The item that an entry with an id and a name describes. A directory has no
/// size of its own.
pub open spec fn item_of(raw: RawItem, parent_id: Seq<char>) -> Option<ItemView> {
    match (raw.fid, raw.file_name) {
        (Some(fid), Some(name)) => Some(
            ItemView {
                id: fid@,
                parent_id,
                name: name@,
                is_directory: raw.dir,
                size: if raw.dir {
                    0
                } else {
                    raw.size
                },
                created_at_ms: raw.created_at,
                modified_at_ms: raw.updated_at,
                version: version_text(
                    raw.updated_at as int,
                    raw.size as nat,
                    match raw.content_hash {
                        Some(hash) => hash@,
                        None => Seq::empty(),
                    },
                ),
            },
        ),
        _ => None,
    }
}

impl RawItem {
    /// The item that this entry describes, if it has an id and a name.
    pub fn into_item(self, parent_id: &str) -> (r: Option<RemoteItem>)
        ensures
            match r {
                Some(item) => item_of(self, parent_id@) == Some(item@),
                None => item_of(self, parent_id@) is None,
            },
    {
        let id = match self.fid {
            Some(id) => id,
            None => {
                return None;
            },
        };
        let name = match self.file_name {
            Some(name) => name,
            None => {
                return None;
            },
        };
        let hash = match self.content_hash {
            Some(hash) => hash,
            None => String::new(),
        };
        let version = version_of(self.updated_at, self.size, hash.as_str());
        Some(
            RemoteItem {
                id,
                parent_id: parent_id.to_owned(),
                name,
                is_directory: self.dir,
                size: if self.dir {
                    0
                } else {
                    self.size
                },
                created_at_ms: self.created_at,
                modified_at_ms: self.updated_at,
                version,
            },
        )
    }
}

/// The items of a listing that users see: every entry with an id and a name
/// that is not internal, in the order of the listing.
pub open spec fn visible_items(list: Seq<RawItem>, parent_id: Seq<char>) -> Seq<ItemView>
    decreases list.len(),
{
    if list.len() == 0 {
        Seq::empty()
    } else {
        let before = visible_items(list.drop_last(), parent_id);
        match item_of(list.last(), parent_id) {
            Some(item) if !internal_name(item.name) => before.push(item),
            _ => before,
        }
    }
}

/// Appends to `items` those of the entries that users see.
pub fn collect_visible(list: Vec<RawItem>, parent_id: &str, items: &mut Vec<RemoteItem>)
    ensures
        item_views(final(items)@) == item_views(old(items)@) + visible_items(list@, parent_id@),
{
    let ghost start = item_views(items@);
    let ghost entries = list@;
    assert(entries.take(0) =~= Seq::empty());
    assert(start + Seq::empty() =~= start);
    for raw in it: list
        invariant
            it.seq() == entries,
            item_views(items@) == start + visible_items(
                entries.take(it.index() as int),
                parent_id@,
            ),
    {
        let ghost k = it.index() as int;
        proof {
            assert(raw == entries[k]);
            assert(entries.take(k + 1).drop_last() =~= entries.take(k));
            assert(entries.take(k + 1).last() == raw);
        }
        let ghost before = items@;
        let hidden: bool = match &raw.file_name {
            Some(name) => is_internal_name(name.as_str()),
            None => false,
        };
        if !hidden {
            if let Some(item) = raw.into_item(parent_id) {
                items.push(item);
                assert(item_views(items@) =~= item_views(before).push(item@));
            }
        }
        assert(item_views(items@) =~= start + visible_items(entries.take(k + 1), parent_id@));
    }
    assert(entries.take(entries.len() as int) =~= entries);
}

/// No listing shows an internal name.
pub proof fn law_visible_items_not_internal(list: Seq<RawItem>, parent_id: Seq<char>)
    ensures
        forall|i: int|
            0 <= i < visible_items(list, parent_id).len() ==> !internal_name(
                (#[trigger] visible_items(list, parent_id)[i]).name,
            ),
    decreases list.len(),
{
    if list.len() > 0 {
        law_visible_items_not_internal(list.drop_last(), parent_id);
        let all = visible_items(list, parent_id);
        let before = visible_items(list.drop_last(), parent_id);
        assert forall|i: int| 0 <= i < all.len() implies !internal_name((#[trigger] all[i]).name) by {
            if i < before.len() {
                assert(all[i] == before[i]);
            }
        }
    }
}

/// Every visible item lies in the directory that was listed, and every
/// directory has size zero.
pub proof fn law_visible_items_belong(list: Seq<RawItem>, parent_id: Seq<char>)
    ensures
        forall|i: int|
            0 <= i < visible_items(list, parent_id).len() ==> {
                let item = #[trigger] visible_items(list, parent_id)[i];
                item.parent_id == parent_id && (item.is_directory ==> item.size == 0)
            },
    decreases list.len(),
{
    if list.len() > 0 {
        law_visible_items_belong(list.drop_last(), parent_id);
        let all = visible_items(list, parent_id);
        let before = visible_items(list.drop_last(), parent_id);
        assert forall|i: int| 0 <= i < all.len() implies {
            let item = #[trigger] all[i];
            item.parent_id == parent_id && (item.is_directory ==> item.size == 0)
        } by {
            if i < before.len() {
                assert(all[i] == before[i]);
            }
        }
    }
}

proof fn lemma_number_before_colon(a: Seq<char>, b: Seq<char>, x: Seq<char>, y: Seq<char>)
    requires
        !a.contains(':'),
        !b.contains(':'),
        a + ":"@ + x == b + ":"@ + y,
    ensures
        a == b,
        x == y,
{
    reveal_strlit(":");
    let s = a + ":"@ + x;
    assert(s[a.len() as int] == ':');
    assert((b + ":"@ + y)[b.len() as int] == ':');
    if a.len() < b.len() {
        assert(s[a.len() as int] == b[a.len() as int]);
        assert(b.contains(b[a.len() as int]));
    }
    if b.len() < a.len() {
        assert(s[b.len() as int] == a[b.len() as int]);
        assert(a.contains(a[b.len() as int]));
    }
    assert(a =~= s.take(a.len() as int));
    assert(b =~= s.take(a.len() as int));
    assert(x =~= s.skip(a.len() as int + 1));
    assert(y =~= s.skip(a.len() as int + 1));
}

proof fn lemma_no_colon(i: int)
    ensures
        !signed_decimal(i).contains(':'),
{
    let s = signed_decimal(i);
    let n = if i < 0 {
        (-i) as nat
    } else {
        i as nat
    };
    lemma_decimal_is_digits(n);
    assert forall|k: int| 0 <= k < s.len() implies s[k] != ':' by {
        if i < 0 {
            if k > 0 {
                assert(s[k] == decimal(n)[k - 1]);
                assert(is_digit(decimal(n)[k - 1]));
            }
        } else {
            assert(is_digit(decimal(n)[k]));
        }
    }
}

/// A version text tells every change: two files with the same version have the
/// same time, size and hash.
pub proof fn law_version_tells_every_change(
    t1: i64,
    s1: nat,
    h1: Seq<char>,
    t2: i64,
    s2: nat,
    h2: Seq<char>,
)
    requires
        version_text(t1 as int, s1, h1) == version_text(t2 as int, s2, h2),
    ensures
        t1 == t2,
        s1 == s2,
        h1 == h2,
{
    let time1 = signed_decimal(t1 as int);
    let time2 = signed_decimal(t2 as int);
    let rest1 = decimal(s1) + ":"@ + h1;
    let rest2 = decimal(s2) + ":"@ + h2;
    lemma_no_colon(t1 as int);
    lemma_no_colon(t2 as int);
    lemma_no_colon(s1 as int);
    lemma_no_colon(s2 as int);
    assert(version_text(t1 as int, s1, h1) =~= time1 + ":"@ + rest1);
    assert(version_text(t2 as int, s2, h2) =~= time2 + ":"@ + rest2);
    lemma_number_before_colon(time1, time2, rest1, rest2);
    lemma_number_before_colon(decimal(s1), decimal(s2), h1, h2);
    law_decimal_reads_back(t1);
    law_decimal_reads_back(t2);
    lemma_decimal_is_digits(s1);
    lemma_decimal_is_digits(s2);
}

} // verus!
