//! Operations on the drive: what to ask, and what the answers mean.

use super::error::{unit_result, ErrorView, QuarkError};
use super::item::{
    collect_visible, item_views, visible_items, DownloadData, Envelope, ItemView, ListData, RawItem,
    RemoteItem,
};
use super::request::{
    add_field, add_pair, add_single, add_text, drive_header_list, drive_headers, drive_post, fields,
    pairs, post_to_drive, Body, BodyView, FieldValue, FieldView, Method, Request, RequestView,
};
use super::wire::{normalize_cookie, normalized_cookie};
use crate::digits::{decimal, decimal_u64};
use crate::json::{first_string, first_text, json_contents, key_paths};
use crate::order::{indices, key_texts, order_of, stable_order};
use crate::text::{chars_of, concat2, concat3, lowercase};
use vstd::prelude::*;

verus! {

/// A session with the drive.
pub struct QuarkClient {
    pub cookie: String,
}

impl Clone for QuarkClient {
    fn clone(&self) -> (r: QuarkClient)
        ensures
            r.cookie@ == self.cookie@,
    {
        QuarkClient { cookie: self.cookie.clone() }
    }
}

impl QuarkClient {
    /// A session with the cookie that the user gave.
    pub fn new(cookie: &str) -> (r: QuarkClient)
        ensures
            r.cookie@ == normalized_cookie(cookie@),
    {
        QuarkClient { cookie: normalize_cookie(cookie) }
    }
}

// ---------------------------------------------------------------------------
// Listing a directory
// ---------------------------------------------------------------------------

/// The lower-case names by which a listing is ordered.
pub open spec fn name_keys(items: Seq<ItemView>) -> Seq<Seq<char>> {
    items.map_values(|item: ItemView| lowercase(item.name))
}

/// `p` picks from `items`.
pub open spec fn picked(items: Seq<ItemView>, p: Seq<int>) -> Seq<ItemView> {
    p.map_values(|i: int| items[i])
}

/// `out` is `items` in the order of `keys`, equal keys staying as they stood.
pub open spec fn arranged_by(
    items: Seq<ItemView>,
    keys: Seq<Seq<char>>,
    out: Seq<ItemView>,
) -> bool {
    exists|p: Seq<int>| #[trigger] stable_order(keys, p) && out == picked(items, p)
}

/// Puts `items` in the order of `keys`.
pub fn arrange(items: &Vec<RemoteItem>, keys: &Vec<Vec<char>>) -> (r: Vec<RemoteItem>)
    requires
        items@.len() == keys@.len(),
    ensures
        arranged_by(item_views(items@), key_texts(keys@), item_views(r@)),
{
    let order = order_of(keys);
    let mut out: Vec<RemoteItem> = Vec::new();
    let mut i: usize = 0;
    while i < order.len()
        invariant
            i <= order@.len(),
            items@.len() == keys@.len(),
            forall|k: int| 0 <= k < order@.len() ==> 0 <= #[trigger] order@[k] < keys@.len(),
            out@.len() == i,
            forall|k: int| 0 <= k < i ==> (#[trigger] out@[k])@ == items@[order@[k] as int]@,
        decreases order@.len() - i,
    {
        out.push(items[order[i]].clone());
        i += 1;
    }
    proof {
        let p = indices(order@);
        assert(item_views(out@) =~= picked(item_views(items@), p));
    }
    out
}

/// Puts `items` in the order of their lower-case names.
pub fn sort_by_name(items: &Vec<RemoteItem>) -> (r: Vec<RemoteItem>)
    ensures
        arranged_by(item_views(items@), name_keys(item_views(items@)), item_views(r@)),
{
    let mut keys: Vec<Vec<char>> = Vec::new();
    let mut i: usize = 0;
    while i < items.len()
        invariant
            i <= items@.len(),
            keys@.len() == i,
            forall|k: int| 0 <= k < i ==> (#[trigger] keys@[k])@ == lowercase(items@[k].name@),
        decreases items@.len() - i,
    {
        let key = items[i].name.as_str().to_lowercase();
        keys.push(chars_of(key.as_str()));
        i += 1;
    }
    assert(key_texts(keys@) =~= name_keys(item_views(items@)));
    arrange(items, &keys)
}

/// A directory that is being listed page by page.
pub struct Listing {
    pub cookie: String,
    pub parent_id: String,
    pub page: u32,
    pub items: Vec<RemoteItem>,
}

/// What to do after a page has come.
pub enum ListingStep {
    /// Ask for the next page.
    More(Listing),
    /// These are all items.
    Done(Vec<RemoteItem>),
}

/// The request for one page of a listing, of up to 500 entries.
pub open spec fn page_request(cookie: Seq<char>, parent_id: Seq<char>, page: nat) -> RequestView {
    RequestView {
        method: Method::Get,
        url: "https://drive.quark.cn/1/clouddrive/file/sort"@,
        query: seq![
            ("pr"@, "ucpro"@),
            ("fr"@, "pc"@),
            ("pdir_fid"@, parent_id),
            ("_page"@, decimal(page)),
            ("_size"@, "500"@),
            ("_fetch_total"@, "1"@),
            ("_fetch_sub_dirs"@, "0"@),
            ("_sort"@, "file_type:asc,updated_at:desc"@),
        ],
        headers: drive_headers(cookie),
        body: BodyView::Empty,
    }
}

impl QuarkClient {
    /// Starts listing a directory.
    pub fn list_children(&self, parent_id: &str) -> (r: Listing)
        ensures
            r.cookie@ == self.cookie@,
            r.parent_id@ == parent_id@,
            r.page == 1,
            r.items@.len() == 0,
    {
        Listing {
            cookie: self.cookie.clone(),
            parent_id: parent_id.to_owned(),
            page: 1,
            items: Vec::new(),
        }
    }
}

/// A listing goes on with the next page, and has the items of one page more.
pub open spec fn grows(before: Listing, page: Seq<RawItem>, after: Listing) -> bool {
    &&& after.cookie@ == before.cookie@
    &&& after.parent_id@ == before.parent_id@
    &&& after.page == before.page + 1
    &&& item_views(after.items@) == before.items_with(page)
}

impl Listing {
    /// The request for the page that comes next.
    pub fn request(&self) -> (r: Request)
        ensures
            r@ == page_request(self.cookie@, self.parent_id@, self.page as nat),
    {
        let mut query: Vec<(String, String)> = Vec::new();
        assert(pairs(query@) =~= Seq::empty());
        let page = decimal_u64(self.page as u64);
        add_pair(&mut query, "pr", "ucpro");
        add_pair(&mut query, "fr", "pc");
        add_pair(&mut query, "pdir_fid", self.parent_id.as_str());
        add_pair(&mut query, "_page", page.as_str());
        add_pair(&mut query, "_size", "500");
        add_pair(&mut query, "_fetch_total", "1");
        add_pair(&mut query, "_fetch_sub_dirs", "0");
        add_pair(&mut query, "_sort", "file_type:asc,updated_at:desc");
        assert(pairs(query@) =~= page_request(
            self.cookie@,
            self.parent_id@,
            self.page as nat,
        ).query);
        Request {
            method: Method::Get,
            url: "https://drive.quark.cn/1/clouddrive/file/sort".to_owned(),
            query,
            headers: drive_header_list(self.cookie.as_str()),
            body: Body::Empty,
        }
    }

    /// The items after one more page.
    pub open spec fn items_with(&self, list: Seq<RawItem>) -> Seq<ItemView> {
        item_views(self.items@) + visible_items(list, self.parent_id@)
    }

    /// Takes in the page that was asked for. A full page may be followed by
    /// another; a shorter one is the last.
    pub fn accept(self, reply: Envelope<ListData>) -> (r: Result<ListingStep, QuarkError>)
        requires
            self.page < u32::MAX,
        ensures
            match r {
                Ok(step) => !reply.refused() && (reply.data matches Some(data) && match step {
                    ListingStep::More(next) => data.list@.len() >= 500 && grows(
                        self,
                        data.list@,
                        next,
                    ),
                    ListingStep::Done(items) => {
                        &&& data.list@.len() < 500
                        &&& arranged_by(
                            self.items_with(data.list@),
                            name_keys(self.items_with(data.list@)),
                            item_views(items@),
                        )
                    },
                }),
                Err(e) => if reply.refused() {
                    e@ == reply.refusal()
                } else {
                    reply.data is None && e@ == ErrorView::Malformed("data"@)
                },
            },
    {
        let data = match reply.into_data() {
            Ok(data) => data,
            Err(e) => {
                return Err(e);
            },
        };
        let count = data.list.len();
        let mut items = self.items;
        collect_visible(data.list, self.parent_id.as_str(), &mut items);
        if count < 500 {
            return Ok(ListingStep::Done(sort_by_name(&items)));
        }
        Ok(
            ListingStep::More(
                Listing {
                    cookie: self.cookie,
                    parent_id: self.parent_id,
                    page: self.page + 1,
                    items,
                },
            ),
        )
    }
}

/// The pages of a listing give together what one long page would give.
pub proof fn law_pages_add_up(a: Seq<RawItem>, b: Seq<RawItem>, parent_id: Seq<char>)
    ensures
        visible_items(a + b, parent_id) == visible_items(a, parent_id) + visible_items(
            b,
            parent_id,
        ),
    decreases b.len(),
{
    if b.len() == 0 {
        assert(a + b =~= a);
        assert(visible_items(a, parent_id) + visible_items(b, parent_id) =~= visible_items(
            a,
            parent_id,
        ));
    } else {
        law_pages_add_up(a, b.drop_last(), parent_id);
        assert((a + b).drop_last() =~= a + b.drop_last());
        assert(visible_items(a + b, parent_id) =~= visible_items(a, parent_id) + visible_items(
            b,
            parent_id,
        ));
    }
}

/// The entries of some pages, one after the other.
pub open spec fn all_entries(pages: Seq<Seq<RawItem>>) -> Seq<RawItem>
    decreases pages.len(),
{
    if pages.len() == 0 {
        Seq::empty()
    } else {
        all_entries(pages.drop_last()) + pages.last()
    }
}

/// A listing that has taken in several pages holds what users see of all of them,
/// in the order in which they came, and asks for the page behind the last of them.
pub proof fn law_listing_holds_every_page(states: Seq<Listing>, pages: Seq<Seq<RawItem>>)
    requires
        states.len() == pages.len() + 1,
        states[0].items@.len() == 0,
        forall|i: int|
            0 <= i < pages.len() ==> grows(states[i], #[trigger] pages[i], states[i + 1]),
    ensures
        item_views(states.last().items@) == visible_items(
            all_entries(pages),
            states[0].parent_id@,
        ),
        states.last().parent_id@ == states[0].parent_id@,
        states.last().page == states[0].page + pages.len(),
    decreases pages.len(),
{
    if pages.len() == 0 {
        assert(item_views(states.last().items@) =~= Seq::empty());
    } else {
        let n = pages.len() - 1;
        let s = states.drop_last();
        let p = pages.drop_last();
        assert forall|i: int| 0 <= i < p.len() implies grows(s[i], #[trigger] p[i], s[i + 1]) by {
            assert(p[i] == pages[i]);
        }
        law_listing_holds_every_page(s, p);
        assert(s.last() == states[n]);
        assert(grows(states[n], pages[n], states[n + 1]));
        law_pages_add_up(all_entries(p), pages.last(), states[0].parent_id@);
    }
}

/// The order of a listing is settled by its items: two results for the same
/// items are the same.
pub proof fn law_arrangement_is_unique(
    items: Seq<ItemView>,
    keys: Seq<Seq<char>>,
    a: Seq<ItemView>,
    b: Seq<ItemView>,
)
    requires
        arranged_by(items, keys, a),
        arranged_by(items, keys, b),
    ensures
        a == b,
{
    let p = choose|p: Seq<int>| #[trigger] stable_order(keys, p) && a == picked(items, p);
    let q = choose|q: Seq<int>| #[trigger] stable_order(keys, q) && b == picked(items, q);
    crate::order::law_stable_order_unique(keys, p, q);
}

impl QuarkClient {
    /// Whether the session is good, by how many items a directory holds once it
    /// was listed.
    pub fn check_account(listed: Result<Vec<RemoteItem>, QuarkError>) -> (r: Result<usize, QuarkError>)
        ensures
            match listed {
                Ok(items) => r == Ok::<usize, QuarkError>(items@.len() as usize),
                Err(e) => r == Err::<usize, QuarkError>(e),
            },
    {
        match listed {
            Ok(items) => Ok(items.len()),
            Err(e) => Err(e),
        }
    }
}

// ---------------------------------------------------------------------------
// Downloading
// ---------------------------------------------------------------------------

/// A part of a file, from `start` up to but without `end`, that is being
/// downloaded.
pub struct Download {
    pub cookie: String,
    pub file_id: String,
    pub start: u64,
    pub end: u64,
}

/// The request for the address of a file's contents.
pub open spec fn locate_request(cookie: Seq<char>, file_id: Seq<char>) -> RequestView {
    RequestView {
        method: Method::Post,
        url: "https://drive.quark.cn/1/clouddrive/file/download?pr=ucpro&fr=pc"@,
        query: Seq::empty(),
        headers: drive_headers(cookie),
        body: BodyView::Fields(seq![("fids"@, FieldView::Texts(seq![file_id]))]),
    }
}

/// The header that asks for some of the bytes; its second number is that of the
/// last byte.
pub open spec fn range_text(start: nat, end: nat) -> Seq<char> {
    "bytes="@ + decimal(start) + "-"@ + decimal(
        (if end > 0 {
            end - 1
        } else {
            0
        }) as nat,
    )
}

/// The request for some of the bytes at an address.
pub open spec fn bytes_request(url: Seq<char>, start: nat, end: nat) -> RequestView {
    RequestView {
        method: Method::Get,
        url,
        query: Seq::empty(),
        headers: seq![("Range"@, range_text(start, end))],
        body: BodyView::Empty,
    }
}

pub open spec fn least(a: int, b: int) -> int {
    if a <= b {
        a
    } else {
        b
    }
}

/// The bytes of the part, out of what came: with status 200 the whole file came,
/// otherwise just the part.
pub open spec fn received_bytes(status: u16, bytes: Seq<u8>, start: int, end: int) -> Seq<u8> {
    if status == 200 {
        let from = least(start, bytes.len() as int);
        bytes.subrange(from, least(bytes.len() as int, from + (end - start)))
    } else {
        bytes
    }
}

impl QuarkClient {
    /// Starts downloading a part of a file.
    pub fn download_range(&self, file_id: &str, start: u64, end: u64) -> (r: Download)
        ensures
            r.cookie@ == self.cookie@,
            r.file_id@ == file_id@,
            r.start == start,
            r.end == end,
    {
        Download { cookie: self.cookie.clone(), file_id: file_id.to_owned(), start, end }
    }
}

impl Download {
    /// The request for the address of the contents.
    pub fn request(&self) -> (r: Request)
        ensures
            r@ == locate_request(self.cookie@, self.file_id@),
    {
        let mut body: Vec<(String, FieldValue)> = Vec::new();
        assert(fields(body@) =~= Seq::empty());
        add_single(&mut body, "fids", self.file_id.as_str());
        assert(fields(body@) =~= seq![("fids"@, FieldView::Texts(seq![self.file_id@]))]);
        let query: Vec<(String, String)> = Vec::new();
        assert(pairs(query@) =~= Seq::empty());
        Request {
            method: Method::Post,
            url: "https://drive.quark.cn/1/clouddrive/file/download?pr=ucpro&fr=pc".to_owned(),
            query,
            headers: drive_header_list(self.cookie.as_str()),
            body: Body::Fields(body),
        }
    }

    /// The request for the bytes, once their address is known.
    pub fn locate(&self, reply: Envelope<Vec<DownloadData>>) -> (r: Result<Request, QuarkError>)
        ensures
            match r {
                Ok(request) => !reply.refused() && (reply.data matches Some(list) && list@.len() > 0
                    && request@ == bytes_request(
                    list@[0].download_url@,
                    self.start as nat,
                    self.end as nat,
                )),
                Err(e) => if reply.refused() {
                    e@ == reply.refusal()
                } else {
                    match reply.data {
                        None => e@ == ErrorView::Malformed("data"@),
                        Some(list) => list@.len() == 0 && e@ == ErrorView::Malformed(
                            "data[0].download_url"@,
                        ),
                    }
                },
            },
    {
        let list = match reply.into_data() {
            Ok(list) => list,
            Err(e) => {
                return Err(e);
            },
        };
        if list.len() == 0 {
            return Err(QuarkError::Malformed("data[0].download_url"));
        }
        let last: u64 = if self.end > 0 {
            self.end - 1
        } else {
            0
        };
        let from = decimal_u64(self.start);
        let to = decimal_u64(last);
        let head = concat3("bytes=", from.as_str(), "-");
        let range = concat2(head.as_str(), to.as_str());
        let mut headers: Vec<(String, String)> = Vec::new();
        assert(pairs(headers@) =~= Seq::empty());
        add_pair(&mut headers, "Range", range.as_str());
        assert(pairs(headers@) =~= seq![
            ("Range"@, range_text(self.start as nat, self.end as nat)),
        ]);
        let query: Vec<(String, String)> = Vec::new();
        assert(pairs(query@) =~= Seq::empty());
        Ok(
            Request {
                method: Method::Get,
                url: list[0].download_url.clone(),
                query,
                headers,
                body: Body::Empty,
            },
        )
    }

    /// The bytes of the part, out of what came.
    pub fn receive(&self, status: u16, bytes: Vec<u8>) -> (r: Vec<u8>)
        requires
            status == 200 ==> self.start <= self.end,
        ensures
            r@ == received_bytes(status, bytes@, self.start as int, self.end as int),
    {
        if status != 200 {
            return bytes;
        }
        let count: usize = bytes.len();
        let from: usize = if self.start < count as u64 {
            self.start as usize
        } else {
            count
        };
        let wanted: u64 = self.end - self.start;
        let to: usize = if wanted < (count - from) as u64 {
            from + wanted as usize
        } else {
            count
        };
        let mut bytes = bytes;
        let ghost all = bytes@;
        bytes.truncate(to);
        let part = bytes.split_off(from);
        assert(part@ =~= all.subrange(from as int, to as int));
        part
    }
}

/// A server that sends the part that was asked for, and one that sends the whole
/// file, lead to the same bytes.
pub proof fn law_range_either_way(content: Seq<u8>, start: int, end: int, status: u16)
    requires
        0 <= start <= end <= content.len(),
        status != 200,
    ensures
        received_bytes(200, content, start, end) == received_bytes(
            status,
            content.subrange(start, end),
            start,
            end,
        ),
        received_bytes(200, content, start, end).len() == end - start,
{
}

// ---------------------------------------------------------------------------
// Folders, moves, names and deletion
// ---------------------------------------------------------------------------

/// The request for a new folder.
pub open spec fn folder_request(
    cookie: Seq<char>,
    parent_id: Seq<char>,
    name: Seq<char>,
) -> RequestView {
    drive_post(
        "https://drive.quark.cn/1/clouddrive/file"@,
        cookie,
        seq![
            ("pdir_fid"@, FieldView::Text(parent_id)),
            ("file_name"@, FieldView::Text(name)),
            ("dir_path"@, FieldView::Text(""@)),
            ("dir_init_lock"@, FieldView::Flag(false)),
        ],
    )
}

/// The request that puts a file into another folder.
pub open spec fn move_request(
    cookie: Seq<char>,
    file_id: Seq<char>,
    target_parent_id: Seq<char>,
) -> RequestView {
    drive_post(
        "https://drive.quark.cn/1/clouddrive/file/move"@,
        cookie,
        seq![
            ("filelist"@, FieldView::Texts(seq![file_id])),
            ("to_pdir_fid"@, FieldView::Text(target_parent_id)),
        ],
    )
}

/// The request that gives a file another name.
pub open spec fn rename_request(
    cookie: Seq<char>,
    file_id: Seq<char>,
    name: Seq<char>,
) -> RequestView {
    drive_post(
        "https://drive.quark.cn/1/clouddrive/file/rename"@,
        cookie,
        seq![("fid"@, FieldView::Text(file_id)), ("file_name"@, FieldView::Text(name))],
    )
}

/// The request that deletes a file or folder.
pub open spec fn delete_request(cookie: Seq<char>, file_id: Seq<char>) -> RequestView {
    RequestView {
        method: Method::Post,
        url: "https://drive.quark.cn/1/clouddrive/file/delete?pr=ucpro&fr=pc&uc_param_str="@,
        query: Seq::empty(),
        headers: drive_headers(cookie),
        body: BodyView::Fields(
            seq![
                ("action_type"@, FieldView::Signed(2)),
                ("filelist"@, FieldView::Texts(seq![file_id])),
                ("exclude_fids"@, FieldView::Texts(Seq::empty())),
            ],
        ),
    }
}

/// Where the reply to a new folder has its id.
pub open spec fn folder_id_paths() -> Seq<Seq<Seq<char>>> {
    seq![seq!["fid"@], seq!["data"@, "fid"@]]
}

impl QuarkClient {
    /// The request for a new folder.
    pub fn create_folder(&self, parent_id: &str, name: &str) -> (r: Request)
        ensures
            r@ == folder_request(self.cookie@, parent_id@, name@),
    {
        let mut body: Vec<(String, FieldValue)> = Vec::new();
        assert(fields(body@) =~= Seq::empty());
        add_text(&mut body, "pdir_fid", parent_id);
        add_text(&mut body, "file_name", name);
        add_text(&mut body, "dir_path", "");
        add_field(&mut body, "dir_init_lock", FieldValue::Flag(false));
        assert(BodyView::Fields(fields(body@)) == folder_request(
            self.cookie@,
            parent_id@,
            name@,
        ).body) by {
            assert(fields(body@) =~= folder_request(
                self.cookie@,
                parent_id@,
                name@,
            ).body->Fields_0);
        }
        post_to_drive("https://drive.quark.cn/1/clouddrive/file", self.cookie.as_str(), body)
    }

    /// The request that puts a file into another folder.
    pub fn move_file(&self, file_id: &str, target_parent_id: &str) -> (r: Request)
        ensures
            r@ == move_request(self.cookie@, file_id@, target_parent_id@),
    {
        let mut body: Vec<(String, FieldValue)> = Vec::new();
        assert(fields(body@) =~= Seq::empty());
        add_single(&mut body, "filelist", file_id);
        add_text(&mut body, "to_pdir_fid", target_parent_id);
        assert(fields(body@) =~= move_request(
            self.cookie@,
            file_id@,
            target_parent_id@,
        ).body->Fields_0);
        post_to_drive("https://drive.quark.cn/1/clouddrive/file/move", self.cookie.as_str(), body)
    }

    /// The request that gives a file another name.
    pub fn rename_file(&self, file_id: &str, name: &str) -> (r: Request)
        ensures
            r@ == rename_request(self.cookie@, file_id@, name@),
    {
        let mut body: Vec<(String, FieldValue)> = Vec::new();
        assert(fields(body@) =~= Seq::empty());
        add_text(&mut body, "fid", file_id);
        add_text(&mut body, "file_name", name);
        assert(fields(body@) =~= rename_request(self.cookie@, file_id@, name@).body->Fields_0);
        post_to_drive(
            "https://drive.quark.cn/1/clouddrive/file/rename",
            self.cookie.as_str(),
            body,
        )
    }

    /// The request that deletes a file or directory from the cloud drive.
    ///
    /// The server takes the request in and works on it later. A request that was
    /// taken in is the point at which the local delete may proceed; the next
    /// listing shows the final remote state.
    pub fn delete_file(&self, file_id: &str) -> (r: Request)
        ensures
            r@ == delete_request(self.cookie@, file_id@),
    {
        let mut body: Vec<(String, FieldValue)> = Vec::new();
        assert(fields(body@) =~= Seq::empty());
        add_field(&mut body, "action_type", FieldValue::Signed(2));
        add_single(&mut body, "filelist", file_id);
        let none: Vec<String> = Vec::new();
        assert(crate::text::texts(none@) =~= Seq::empty());
        add_field(&mut body, "exclude_fids", FieldValue::Texts(none));
        assert(fields(body@) =~= delete_request(self.cookie@, file_id@).body->Fields_0);
        let query: Vec<(String, String)> = Vec::new();
        assert(pairs(query@) =~= Seq::empty());
        Request {
            method: Method::Post,
            url: "https://drive.quark.cn/1/clouddrive/file/delete?pr=ucpro&fr=pc&uc_param_str=".to_owned(),
            query,
            headers: drive_header_list(self.cookie.as_str()),
            body: Body::Fields(body),
        }
    }
}

/// The id of the folder that was created.
pub fn created_folder(reply: Envelope<serde_json::Value>) -> (r: Result<String, QuarkError>)
    ensures
        match r {
            Ok(id) => !reply.refused() && (reply.data matches Some(data) && first_text(
                json_contents(data),
                folder_id_paths(),
            ) == Some(id@)),
            Err(e) => if reply.refused() {
                e@ == reply.refusal()
            } else {
                match reply.data {
                    None => e@ == ErrorView::Malformed("data"@),
                    Some(data) => first_text(json_contents(data), folder_id_paths()) is None && e@
                        == ErrorView::Malformed("data.fid"@),
                }
            },
        },
{
    let data = match reply.into_data() {
        Ok(data) => data,
        Err(e) => {
            return Err(e);
        },
    };
    let direct: Vec<&str> = vec!["fid"];
    let nested: Vec<&str> = vec!["data", "fid"];
    let paths: Vec<Vec<&str>> = vec![direct, nested];
    proof {
        assert(crate::json::keys(direct@) =~= seq!["fid"@]);
        assert(crate::json::keys(nested@) =~= seq!["data"@, "fid"@]);
        assert(key_paths(paths@) =~= folder_id_paths());
    }
    match first_string(&data, &paths) {
        Some(id) => Ok(id),
        None => Err(QuarkError::Malformed("data.fid")),
    }
}

/// Whether the server took a request in. The reply has to carry some data.
pub fn acknowledged(reply: Envelope<serde_json::Value>) -> (r: Result<(), QuarkError>)
    ensures
        unit_result(r) == (if reply.refused() {
            Err(reply.refusal())
        } else if reply.data is None {
            Err(ErrorView::Malformed("data"@))
        } else {
            Ok(())
        }),
{
    match reply.into_data() {
        Ok(_) => Ok(()),
        Err(e) => Err(e),
    }
}

} // verus!
