//! What the requests to the drive say, by the names of what they carry, and what
//! becomes of the replies.

use super::client::{
    acknowledged, arranged_by, created_folder, folder_id_paths, name_keys, picked, Download, Listing,
    ListingStep, QuarkClient,
};
use super::error::{ErrorView, QuarkError};
use super::item::{
    item_of, item_views, visible_items, DownloadData, Envelope, ItemView, ListData, RawItem,
    RemoteItem,
};
use super::request::{BodyView, FieldView, Method, Request, RequestView};
use super::wire::{law_pasted_cookie_is_kept, plain_cookie};
use crate::digits::{
    all_digits, as_i64, decimal, digits_value, law_decimal_reads_back, lemma_decimal_is_digits,
    signed_decimal,
};
use crate::json::{json_contents, lemma_first_text, lemma_no_text, written_at};
use crate::names::internal_name;
use crate::order::{positions, stable_order};
use crate::text::{is_blank, lowercase, not_after};
use vstd::prelude::*;

verus! {

// ---------------------------------------------------------------------------
// Reading a request
// ---------------------------------------------------------------------------

/// The name stands in the list exactly once, with this value.
pub open spec fn once<V>(list: Seq<(Seq<char>, V)>, name: Seq<char>, value: V) -> bool {
    exists|i: int|
        0 <= i < list.len() && #[trigger] list[i] == (name, value) && forall|j: int|
            0 <= j < list.len() && (#[trigger] list[j]).0 == name ==> j == i
}

/// The fields of a JSON body.
pub open spec fn sent_fields(r: RequestView) -> Seq<(Seq<char>, FieldView)> {
    match r.body {
        BodyView::Fields(list) => list,
        _ => Seq::empty(),
    }
}

/// The text is made of decimal digits, and they write the number.
pub open spec fn writes(text: Seq<char>, n: int) -> bool {
    text.len() > 0 && all_digits(text) && digits_value(text) == n
}

/// The request belongs to the session with this cookie.
pub open spec fn in_session(r: RequestView, cookie: Seq<char>) -> bool {
    once(r.headers, "Cookie"@, cookie)
}

/// The request posts a JSON object to this address of the drive, in the session
/// with this cookie, and says which client is asking.
pub open spec fn posts_to(r: RequestView, url: Seq<char>, cookie: Seq<char>) -> bool {
    &&& r.method == Method::Post
    &&& r.url == url
    &&& r.body is Fields
    &&& in_session(r, cookie)
    &&& once(r.headers, "Referer"@, "https://pan.quark.cn/"@)
    &&& once(r.query, "pr"@, "ucpro"@)
    &&& once(r.query, "fr"@, "pc"@)
    &&& once(r.query, "uc_param_str"@, ""@)
}

pub(crate) proof fn lemma_once<V>(list: Seq<(Seq<char>, V)>, i: int)
    requires
        0 <= i < list.len(),
        forall|j: int| 0 <= j < list.len() && j != i ==> (#[trigger] list[j]).0 != list[i].0,
    ensures
        once(list, list[i].0, list[i].1),
{
    assert(list[i] == (list[i].0, list[i].1));
}

pub(crate) proof fn lemma_session_headers(r: RequestView)
    requires
        r.headers.len() == 2,
        r.headers[0].0 == "Cookie"@,
        r.headers[1].0 == "Referer"@,
    ensures
        once(r.headers, "Cookie"@, r.headers[0].1),
        once(r.headers, "Referer"@, r.headers[1].1),
{
    reveal_strlit("Cookie");
    reveal_strlit("Referer");
    assert("Cookie"@.len() != "Referer"@.len());
    lemma_once(r.headers, 0);
    lemma_once(r.headers, 1);
}

pub(crate) proof fn lemma_client_query(r: RequestView)
    requires
        r.query.len() == 3,
        r.query[0].0 == "pr"@,
        r.query[1].0 == "fr"@,
        r.query[2].0 == "uc_param_str"@,
    ensures
        once(r.query, "pr"@, r.query[0].1),
        once(r.query, "fr"@, r.query[1].1),
        once(r.query, "uc_param_str"@, r.query[2].1),
{
    reveal_strlit("pr");
    reveal_strlit("fr");
    reveal_strlit("uc_param_str");
    assert("pr"@[0] != "fr"@[0]);
    lemma_once(r.query, 0);
    lemma_once(r.query, 1);
    lemma_once(r.query, 2);
}

// ---------------------------------------------------------------------------
// Changing the drive
// ---------------------------------------------------------------------------

/// A new folder is asked for in the session, under its name and in its parent.
pub proof fn law_new_folder_is_asked_for(
    client: QuarkClient,
    parent_id: &str,
    name: &str,
    r: Request,
)
    requires
        call_ensures(QuarkClient::create_folder, (&client, parent_id, name), r),
    ensures
        posts_to(r@, "https://drive.quark.cn/1/clouddrive/file"@, client.cookie@),
        once(sent_fields(r@), "pdir_fid"@, FieldView::Text(parent_id@)),
        once(sent_fields(r@), "file_name"@, FieldView::Text(name@)),
        once(sent_fields(r@), "dir_path"@, FieldView::Text(""@)),
        once(sent_fields(r@), "dir_init_lock"@, FieldView::Flag(false)),
        sent_fields(r@).len() == 4,
{
    lemma_session_headers(r@);
    lemma_client_query(r@);
    reveal_strlit("pdir_fid");
    reveal_strlit("file_name");
    reveal_strlit("dir_path");
    reveal_strlit("dir_init_lock");
    assert("pdir_fid"@[0] != "dir_path"@[0]);
    let list = sent_fields(r@);
    assert(list.len() == 4);
    assert(list[0].0 == "pdir_fid"@);
    assert(list[1].0 == "file_name"@);
    assert(list[2].0 == "dir_path"@);
    assert(list[3].0 == "dir_init_lock"@);
    lemma_once(list, 0);
    lemma_once(list, 1);
    lemma_once(list, 2);
    lemma_once(list, 3);
}

/// A move is asked for in the session: of this file and no other, into the folder
/// that was named.
pub proof fn law_move_is_asked_for(
    client: QuarkClient,
    file_id: &str,
    target_parent_id: &str,
    r: Request,
)
    requires
        call_ensures(QuarkClient::move_file, (&client, file_id, target_parent_id), r),
    ensures
        posts_to(r@, "https://drive.quark.cn/1/clouddrive/file/move"@, client.cookie@),
        once(sent_fields(r@), "filelist"@, FieldView::Texts(seq![file_id@])),
        once(sent_fields(r@), "to_pdir_fid"@, FieldView::Text(target_parent_id@)),
        sent_fields(r@).len() == 2,
{
    lemma_session_headers(r@);
    lemma_client_query(r@);
    reveal_strlit("filelist");
    reveal_strlit("to_pdir_fid");
    let list = sent_fields(r@);
    assert(list.len() == 2);
    assert(list[0].0 == "filelist"@);
    assert(list[1].0 == "to_pdir_fid"@);
    lemma_once(list, 0);
    lemma_once(list, 1);
}

/// Another name is asked for in the session: for this file, and this name.
pub proof fn law_rename_is_asked_for(client: QuarkClient, file_id: &str, name: &str, r: Request)
    requires
        call_ensures(QuarkClient::rename_file, (&client, file_id, name), r),
    ensures
        posts_to(r@, "https://drive.quark.cn/1/clouddrive/file/rename"@, client.cookie@),
        once(sent_fields(r@), "fid"@, FieldView::Text(file_id@)),
        once(sent_fields(r@), "file_name"@, FieldView::Text(name@)),
        sent_fields(r@).len() == 2,
{
    lemma_session_headers(r@);
    lemma_client_query(r@);
    reveal_strlit("fid");
    reveal_strlit("file_name");
    let list = sent_fields(r@);
    assert(list.len() == 2);
    assert(list[0].0 == "fid"@);
    assert(list[1].0 == "file_name"@);
    lemma_once(list, 0);
    lemma_once(list, 1);
}

/// A deletion is asked for in the session: of this file and no other, with
/// nothing left out.
pub proof fn law_deletion_is_asked_for(client: QuarkClient, file_id: &str, r: Request)
    requires
        call_ensures(QuarkClient::delete_file, (&client, file_id), r),
    ensures
        r@.method == Method::Post,
        r@.url
            == "https://drive.quark.cn/1/clouddrive/file/delete?pr=ucpro&fr=pc&uc_param_str="@,
        r@.query.len() == 0,
        in_session(r@, client.cookie@),
        once(r@.headers, "Referer"@, "https://pan.quark.cn/"@),
        once(sent_fields(r@), "filelist"@, FieldView::Texts(seq![file_id@])),
        once(sent_fields(r@), "exclude_fids"@, FieldView::Texts(Seq::empty())),
        once(sent_fields(r@), "action_type"@, FieldView::Signed(2)),
        sent_fields(r@).len() == 3,
{
    lemma_session_headers(r@);
    reveal_strlit("action_type");
    reveal_strlit("filelist");
    reveal_strlit("exclude_fids");
    let list = sent_fields(r@);
    assert(list.len() == 3);
    assert(list[0].0 == "action_type"@);
    assert(list[1].0 == "filelist"@);
    assert(list[2].0 == "exclude_fids"@);
    lemma_once(list, 0);
    lemma_once(list, 1);
    lemma_once(list, 2);
}

/// Every request that changes the drive carries the session's cookie, whatever it
/// changes.
pub proof fn law_changes_belong_to_the_session(
    client: QuarkClient,
    a: &str,
    b: &str,
    folder: Request,
    moved: Request,
    renamed: Request,
    deleted: Request,
)
    requires
        call_ensures(QuarkClient::create_folder, (&client, a, b), folder),
        call_ensures(QuarkClient::move_file, (&client, a, b), moved),
        call_ensures(QuarkClient::rename_file, (&client, a, b), renamed),
        call_ensures(QuarkClient::delete_file, (&client, a), deleted),
    ensures
        in_session(folder@, client.cookie@),
        in_session(moved@, client.cookie@),
        in_session(renamed@, client.cookie@),
        in_session(deleted@, client.cookie@),
{
    law_new_folder_is_asked_for(client, a, b, folder);
    law_move_is_asked_for(client, a, b, moved);
    law_rename_is_asked_for(client, a, b, renamed);
    law_deletion_is_asked_for(client, a, deleted);
}

// ---------------------------------------------------------------------------
// Replies
// ---------------------------------------------------------------------------

/// The server has met the request: its status is 200 where it gives one, and its
/// code is 0.
pub open spec fn met<T>(reply: Envelope<T>) -> bool {
    reply.code == 0 && (reply.status matches Some(status) ==> status == 200)
}

/// The error that a reply means which the server did not meet: the server's code,
/// or its status where it gives no code, and its message.
pub open spec fn tells_refusal<T>(reply: Envelope<T>, e: ErrorView) -> bool {
    &&& e matches ErrorView::Api(code, message)
    &&& message == reply.message@
    &&& reply.code != 0 ==> code == reply.code
    &&& reply.code == 0 ==> (reply.status matches Some(status) && code == status)
}

/// What a reply carries is taken wherever the server has met the request, and
/// only there. Otherwise the server's own code and message come back.
pub proof fn law_replies_are_taken_or_refused<T>(reply: Envelope<T>, r: Result<T, QuarkError>)
    requires
        call_ensures(Envelope::<T>::into_data, (reply,), r),
    ensures
        met(reply) && reply.data is Some ==> r is Ok && Some(r->Ok_0) == reply.data,
        met(reply) && reply.data is None ==> r is Err && r->Err_0@ == ErrorView::Malformed(
            "data"@,
        ),
        !met(reply) ==> r is Err && tells_refusal(reply, r->Err_0@),
{
}

// ---------------------------------------------------------------------------
// Listing
// ---------------------------------------------------------------------------

/// A version text: the time, the size and the hash, with colons between.
pub open spec fn tells_version(version: Seq<char>, time: i64, size: u64, hash: Seq<char>) -> bool {
    exists|a: Seq<char>, b: Seq<char>|
        version == #[trigger] (a + ":"@ + b + ":"@ + hash) && as_i64(a) == Some(time) && writes(
            b,
            size as int,
        )
}

/// The hash of an entry, empty where it has none.
pub open spec fn hash_of(raw: RawItem) -> Seq<char> {
    match raw.content_hash {
        Some(hash) => hash@,
        None => Seq::empty(),
    }
}

/// An item is what an entry of a folder says: a directory exactly where the entry
/// is one, under the entry's id and name, in the folder, with the entry's times,
/// and with its size unless it is a directory.
pub open spec fn describes(item: ItemView, raw: RawItem, parent_id: Seq<char>) -> bool {
    &&& raw.fid matches Some(fid) && item.id == fid@
    &&& raw.file_name matches Some(name) && item.name == name@
    &&& item.parent_id == parent_id
    &&& item.is_directory == raw.dir
    &&& raw.dir ==> item.size == 0
    &&& !raw.dir ==> item.size == raw.size
    &&& item.created_at_ms == raw.created_at
    &&& item.modified_at_ms == raw.updated_at
    &&& tells_version(item.version, raw.updated_at, raw.size, hash_of(raw))
}

/// An entry that users see: it has an id and a name, and the name is not one that
/// the sync engine keeps for itself.
pub open spec fn is_visible(raw: RawItem) -> bool {
    raw.fid is Some && (raw.file_name matches Some(name) && !internal_name(name@))
}

proof fn lemma_described(raw: RawItem, parent_id: Seq<char>)
    requires
        item_of(raw, parent_id) is Some,
    ensures
        describes(item_of(raw, parent_id)->0, raw, parent_id),
{
    let a = signed_decimal(raw.updated_at as int);
    let b = decimal(raw.size as nat);
    law_decimal_reads_back(raw.updated_at);
    lemma_decimal_is_digits(raw.size as nat);
    assert(item_of(raw, parent_id)->0.version == a + ":"@ + b + ":"@ + hash_of(raw));
}

/// An entry is an item exactly where it has an id and a name, and the item is
/// what the entry says.
pub proof fn law_entries_become_items(raw: RawItem, parent_id: &str, r: Option<RemoteItem>)
    requires
        call_ensures(RawItem::into_item, (raw, parent_id), r),
    ensures
        r is Some <==> raw.fid is Some && raw.file_name is Some,
        r is Some ==> describes(r->0@, raw, parent_id@),
        r is Some ==> r->0@.is_directory == raw.dir,
{
    if r is Some {
        lemma_described(raw, parent_id@);
    }
}

/// The request of a listing asks, in the session, for the entries of the folder,
/// 500 of them at a time, from the page that the listing has come to.
pub proof fn law_page_is_asked_for(listing: Listing, r: Request)
    requires
        call_ensures(Listing::request, (&listing,), r),
    ensures
        r@.method == Method::Get,
        r@.url == "https://drive.quark.cn/1/clouddrive/file/sort"@,
        r@.body is Empty,
        in_session(r@, listing.cookie@),
        once(r@.headers, "Referer"@, "https://pan.quark.cn/"@),
        once(r@.query, "pdir_fid"@, listing.parent_id@),
        exists|page: Seq<char>|
            once(r@.query, "_page"@, page) && #[trigger] writes(page, listing.page as int),
        once(r@.query, "_size"@, "500"@),
        once(r@.query, "_fetch_total"@, "1"@),
        once(r@.query, "_fetch_sub_dirs"@, "0"@),
        once(r@.query, "_sort"@, "file_type:asc,updated_at:desc"@),
        once(r@.query, "pr"@, "ucpro"@),
        once(r@.query, "fr"@, "pc"@),
{
    lemma_session_headers(r@);
    reveal_strlit("pr");
    reveal_strlit("fr");
    reveal_strlit("pdir_fid");
    reveal_strlit("_page");
    reveal_strlit("_size");
    reveal_strlit("_fetch_total");
    reveal_strlit("_fetch_sub_dirs");
    reveal_strlit("_sort");
    assert("pr"@[0] != "fr"@[0]);
    assert("_page"@[1] != "_size"@[1]);
    assert("_page"@[1] != "_sort"@[1]);
    assert("_size"@[2] != "_sort"@[2]);
    let list = r@.query;
    assert(list.len() == 8);
    assert(list[0].0 == "pr"@);
    assert(list[1].0 == "fr"@);
    assert(list[2].0 == "pdir_fid"@);
    assert(list[3].0 == "_page"@);
    assert(list[4].0 == "_size"@);
    assert(list[5].0 == "_fetch_total"@);
    assert(list[6].0 == "_fetch_sub_dirs"@);
    assert(list[7].0 == "_sort"@);
    lemma_once(list, 0);
    lemma_once(list, 1);
    lemma_once(list, 2);
    lemma_once(list, 3);
    lemma_once(list, 4);
    lemma_once(list, 5);
    lemma_once(list, 6);
    lemma_once(list, 7);
    lemma_decimal_is_digits(listing.page as nat);
    assert(writes(list[3].1, listing.page as int));
}

/// A listing begins with the first page of the folder, in the client's session.
pub proof fn law_listing_begins(client: QuarkClient, parent_id: &str, listing: Listing, r: Request)
    requires
        call_ensures(QuarkClient::list_children, (&client, parent_id), listing),
        call_ensures(Listing::request, (&listing,), r),
    ensures
        in_session(r@, client.cookie@),
        once(r@.query, "pdir_fid"@, parent_id@),
        exists|page: Seq<char>| once(r@.query, "_page"@, page) && #[trigger] writes(page, 1),
        listing.items@.len() == 0,
{
    law_page_is_asked_for(listing, r);
}

/// A page with as many entries as were asked for is followed by the next one, of
/// the same folder and in the same session. A shorter page ends the listing.
pub proof fn law_pages_follow_each_other(
    listing: Listing,
    reply: Envelope<ListData>,
    r: Result<ListingStep, QuarkError>,
)
    requires
        call_ensures(Listing::accept, (listing, reply), r),
    ensures
        r is Ok <==> met(reply) && reply.data is Some,
        !met(reply) ==> tells_refusal(reply, r->Err_0@),
        r is Ok && reply.data->0.list@.len() < 500 ==> r->Ok_0 is Done,
        r is Ok && reply.data->0.list@.len() >= 500 ==> {
            &&& r->Ok_0 matches ListingStep::More(next)
            &&& next.cookie@ == listing.cookie@
            &&& next.parent_id@ == listing.parent_id@
            &&& next.page == listing.page + 1
        },
{
}

proof fn lemma_visible(list: Seq<RawItem>, parent_id: Seq<char>)
    ensures
        forall|k: int|
            0 <= k < list.len() && is_visible(#[trigger] list[k]) ==> item_of(
                list[k],
                parent_id,
            ) is Some && visible_items(list, parent_id).contains(item_of(list[k], parent_id)->0),
        forall|i: int|
            0 <= i < visible_items(list, parent_id).len() ==> exists|k: int|
                0 <= k < list.len() && is_visible(#[trigger] list[k]) && item_of(list[k], parent_id)
                    == Some(#[trigger] visible_items(list, parent_id)[i]),
    decreases list.len(),
{
    if list.len() > 0 {
        let init = list.drop_last();
        lemma_visible(init, parent_id);
        let all = visible_items(list, parent_id);
        let before = visible_items(init, parent_id);
        assert forall|k: int| 0 <= k < list.len() && is_visible(#[trigger] list[k]) implies item_of(
            list[k],
            parent_id,
        ) is Some && all.contains(item_of(list[k], parent_id)->0) by {
            if k < init.len() {
                assert(init[k] == list[k]);
                let at = choose|at: int|
                    0 <= at < before.len() && before[at] == item_of(init[k], parent_id)->0;
                assert(all[at] == before[at]);
            } else {
                assert(all.last() == item_of(list[k], parent_id)->0);
                assert(all[all.len() - 1] == all.last());
            }
        }
        assert forall|i: int| 0 <= i < all.len() implies exists|k: int|
            0 <= k < list.len() && is_visible(#[trigger] list[k]) && item_of(list[k], parent_id)
                == Some(#[trigger] all[i]) by {
            if i < before.len() {
                assert(all[i] == before[i]);
                let k = choose|k: int|
                    0 <= k < init.len() && is_visible(#[trigger] init[k]) && item_of(
                        init[k],
                        parent_id,
                    ) == Some(before[i]);
                assert(list[k] == init[k]);
            } else {
                assert(list[list.len() - 1] == list.last());
                assert(is_visible(list[list.len() - 1]));
            }
        }
    }
}

proof fn lemma_arranged(items: Seq<ItemView>, out: Seq<ItemView>)
    requires
        arranged_by(items, name_keys(items), out),
    ensures
        out.len() == items.len(),
        forall|i: int| 0 <= i < items.len() ==> out.contains(#[trigger] items[i]),
        forall|j: int| 0 <= j < out.len() ==> items.contains(#[trigger] out[j]),
        forall|i: int, j: int|
            0 <= i < j < out.len() ==> not_after(
                lowercase((#[trigger] out[i]).name),
                lowercase((#[trigger] out[j]).name),
            ),
{
    broadcast use vstd::seq_lib::group_to_multiset_ensures;

    let keys = name_keys(items);
    let p = choose|p: Seq<int>| #[trigger] stable_order(keys, p) && out == picked(items, p);
    let all = positions(0, keys.len() as int);
    assert(p.to_multiset().len() == p.len());
    assert(all.to_multiset().len() == all.len());
    assert forall|j: int| 0 <= j < p.len() implies 0 <= #[trigger] p[j] < items.len() by {
        assert(p.contains(p[j]));
        assert(all.to_multiset().count(p[j]) > 0);
        assert(all.contains(p[j]));
    }
    assert forall|i: int| 0 <= i < items.len() implies out.contains(#[trigger] items[i]) by {
        assert(all[i] == i);
        assert(all.contains(i));
        assert(p.to_multiset().count(i) > 0);
        assert(p.contains(i));
        let j = choose|j: int| 0 <= j < p.len() && p[j] == i;
        assert(out[j] == items[i]);
    }
    assert forall|j: int| 0 <= j < out.len() implies items.contains(#[trigger] out[j]) by {
        assert(out[j] == items[p[j]]);
    }
    assert forall|i: int, j: int| 0 <= i < j < out.len() implies not_after(
        lowercase((#[trigger] out[i]).name),
        lowercase((#[trigger] out[j]).name),
    ) by {
        assert(out[i] == items[p[i]] && out[j] == items[p[j]]);
        assert(crate::order::goes_before(keys, p[i], p[j]));
        assert(keys[p[i]] == lowercase(items[p[i]].name));
        assert(keys[p[j]] == lowercase(items[p[j]].name));
        crate::order::law_not_after_reflexive(keys[p[i]]);
    }
}

/// Some items hold an item for every visible entry, and for nothing else but what
/// was there before.
pub open spec fn hold_entries(
    items: Seq<ItemView>,
    before: Seq<ItemView>,
    list: Seq<RawItem>,
    parent_id: Seq<char>,
) -> bool {
    &&& forall|i: int| 0 <= i < before.len() ==> items.contains(#[trigger] before[i])
    &&& forall|k: int|
        0 <= k < list.len() && is_visible(#[trigger] list[k]) ==> exists|i: int|
            0 <= i < items.len() && describes(#[trigger] items[i], list[k], parent_id)
    &&& forall|i: int|
        0 <= i < items.len() ==> before.contains(#[trigger] items[i]) || exists|k: int|
            0 <= k < list.len() && is_visible(#[trigger] list[k]) && describes(
                items[i],
                list[k],
                parent_id,
            )
}

proof fn lemma_visible_count(list: Seq<RawItem>, parent_id: Seq<char>)
    ensures
        visible_items(list, parent_id).len() == list.filter(|raw: RawItem| is_visible(raw)).len(),
    decreases list.len(),
{
    reveal(Seq::filter);
    if list.len() > 0 {
        lemma_visible_count(list.drop_last(), parent_id);
    }
}

/// A page adds an item for each of its entries that users see, each a directory
/// exactly where its entry is one, and nothing else; and what earlier pages have
/// brought stays. A listing that has ended is in the order of the lower-case
/// names.
pub proof fn law_listing_shows_every_entry(
    listing: Listing,
    reply: Envelope<ListData>,
    step: ListingStep,
)
    requires
        call_ensures(
            Listing::accept,
            (listing, reply),
            Ok::<ListingStep, QuarkError>(step),
        ),
    ensures
        step matches ListingStep::More(next) ==> hold_entries(
            item_views(next.items@),
            item_views(listing.items@),
            reply.data->0.list@,
            listing.parent_id@,
        ) && next.items@.len() == listing.items@.len() + reply.data->0.list@.filter(
            |raw: RawItem| is_visible(raw),
        ).len(),
        step matches ListingStep::Done(items) ==> {
            &&& hold_entries(
                item_views(items@),
                item_views(listing.items@),
                reply.data->0.list@,
                listing.parent_id@,
            )
            &&& items@.len() == listing.items@.len() + reply.data->0.list@.filter(
                |raw: RawItem| is_visible(raw),
            ).len()
            &&& forall|i: int, j: int|
                0 <= i < j < items@.len() ==> not_after(
                    lowercase((#[trigger] items@[i]).name@),
                    lowercase((#[trigger] items@[j]).name@),
                )
        },
{
    let before = item_views(listing.items@);
    let list = reply.data->0.list@;
    let parent_id = listing.parent_id@;
    let new = visible_items(list, parent_id);
    let all = before + new;
    lemma_visible(list, parent_id);
    lemma_visible_count(list, parent_id);
    let items = match step {
        ListingStep::More(next) => item_views(next.items@),
        ListingStep::Done(items) => item_views(items@),
    };
    if step is Done {
        lemma_arranged(all, items);
        let done = step->Done_0@;
        assert forall|i: int, j: int| 0 <= i < j < done.len() implies not_after(
            lowercase((#[trigger] done[i]).name@),
            lowercase((#[trigger] done[j]).name@),
        ) by {
            assert(items[i].name == done[i].name@ && items[j].name == done[j].name@);
        }
    } else {
        assert(items == all);
    }
    assert forall|i: int| 0 <= i < before.len() implies items.contains(#[trigger] before[i]) by {
        assert(all[i] == before[i]);
    }
    assert forall|k: int| 0 <= k < list.len() && is_visible(#[trigger] list[k]) implies exists|i: int|
        0 <= i < items.len() && describes(#[trigger] items[i], list[k], parent_id) by {
        let item = item_of(list[k], parent_id)->0;
        lemma_described(list[k], parent_id);
        let at = choose|at: int| 0 <= at < new.len() && new[at] == item;
        assert(all[before.len() + at] == item);
        assert(items.contains(item));
        let i = choose|i: int| 0 <= i < items.len() && items[i] == item;
        assert(describes(items[i], list[k], parent_id));
    }
    assert forall|i: int| 0 <= i < items.len() implies before.contains(#[trigger] items[i])
        || exists|k: int|
        0 <= k < list.len() && is_visible(#[trigger] list[k]) && describes(
            items[i],
            list[k],
            parent_id,
        ) by {
        assert(all.contains(items[i]));
        let at = choose|at: int| 0 <= at < all.len() && all[at] == items[i];
        if at < before.len() {
            assert(before[at] == items[i]);
        } else {
            assert(new[at - before.len()] == items[i]);
            let k = choose|k: int|
                0 <= k < list.len() && is_visible(#[trigger] list[k]) && item_of(list[k], parent_id)
                    == Some(new[at - before.len()]);
            lemma_described(list[k], parent_id);
        }
    }
}

// ---------------------------------------------------------------------------
// Downloading
// ---------------------------------------------------------------------------

/// A header that asks for the bytes from `first` to `last`, both included.
pub open spec fn asks_for_bytes(text: Seq<char>, first: int, last: int) -> bool {
    exists|a: Seq<char>, b: Seq<char>|
        text == #[trigger] ("bytes="@ + a + "-"@ + b) && writes(a, first) && writes(b, last)
}

/// The address of a download is asked for in the session: of this file and no
/// other.
pub proof fn law_address_is_asked_for(
    client: QuarkClient,
    file_id: &str,
    start: u64,
    end: u64,
    download: Download,
    r: Request,
)
    requires
        call_ensures(QuarkClient::download_range, (&client, file_id, start, end), download),
        call_ensures(Download::request, (&download,), r),
    ensures
        r@.method == Method::Post,
        r@.url == "https://drive.quark.cn/1/clouddrive/file/download?pr=ucpro&fr=pc"@,
        r@.query.len() == 0,
        in_session(r@, client.cookie@),
        once(r@.headers, "Referer"@, "https://pan.quark.cn/"@),
        once(sent_fields(r@), "fids"@, FieldView::Texts(seq![file_id@])),
        sent_fields(r@).len() == 1,
{
    lemma_session_headers(r@);
    let list = sent_fields(r@);
    assert(list.len() == 1);
    lemma_once(list, 0);
}

/// What is asked for at the address is exactly the part: its first byte is
/// `start` and its last the one before `end`. The address is the first that the
/// server gave, and there is a request wherever it gave one.
pub proof fn law_exactly_the_part_is_asked_for(
    client: QuarkClient,
    file_id: &str,
    start: u64,
    end: u64,
    download: Download,
    reply: Envelope<Vec<DownloadData>>,
    r: Result<Request, QuarkError>,
)
    requires
        call_ensures(QuarkClient::download_range, (&client, file_id, start, end), download),
        call_ensures(Download::locate, (&download, reply), r),
    ensures
        r is Ok <==> met(reply) && (reply.data matches Some(list) && list@.len() > 0),
        !met(reply) ==> tells_refusal(reply, r->Err_0@),
        r matches Ok(request) ==> {
            &&& request@.method == Method::Get
            &&& request@.url == reply.data->0@[0].download_url@
            &&& request@.query.len() == 0
            &&& request@.body is Empty
            &&& exists|range: Seq<char>|
                #[trigger] once(request@.headers, "Range"@, range) && asks_for_bytes(
                    range,
                    start as int,
                    if end > 0 {
                        end - 1
                    } else {
                        0
                    },
                )
            &&& request@.headers.len() == 1
        },
{
    if let Ok(request) = r {
        let last = if end > 0 {
            end - 1
        } else {
            0
        };
        let a = decimal(start as nat);
        let b = decimal(last as nat);
        lemma_decimal_is_digits(start as nat);
        lemma_decimal_is_digits(last as nat);
        let range = request@.headers[0].1;
        assert(range == "bytes="@ + a + "-"@ + b);
        assert(request@.headers.len() == 1);
        lemma_once(request@.headers, 0);
        assert(asks_for_bytes(range, start as int, last as int));
    }
}

/// Whatever the server sends, the bytes of the part come out: those from `start`
/// up to `end` where the whole file came, as far as it reaches, and otherwise what
/// came.
pub proof fn law_part_is_cut_out(download: Download, status: u16, bytes: Vec<u8>, r: Vec<u8>)
    requires
        call_ensures(Download::receive, (&download, status, bytes), r),
        download.start <= download.end,
    ensures
        status != 200 ==> r@ == bytes@,
        status == 200 && download.end <= bytes@.len() ==> r@ == bytes@.subrange(
            download.start as int,
            download.end as int,
        ),
        status == 200 && download.start <= bytes@.len() < download.end ==> r@ == bytes@.skip(
            download.start as int,
        ),
        status == 200 && bytes@.len() < download.start ==> r@.len() == 0,
{
    if status == 200 && download.start <= bytes@.len() < download.end {
        assert(r@ =~= bytes@.skip(download.start as int));
    }
}

// ---------------------------------------------------------------------------
// The session and the outcome of changes
// ---------------------------------------------------------------------------

/// A client asks with the cookie that the user has pasted, whatever white space
/// stands around it, and whether or not the header's name stands before it.
pub proof fn law_client_asks_with_the_pasted_cookie(
    pasted: &str,
    client: QuarkClient,
    before: Seq<char>,
    between: Seq<char>,
    cookie: Seq<char>,
    behind: Seq<char>,
)
    requires
        plain_cookie(cookie),
        is_blank(before),
        is_blank(between),
        is_blank(behind),
        pasted@ == before + cookie + behind || pasted@ == before + ("Cookie:"@ + between + cookie)
            + behind,
        call_ensures(QuarkClient::new, (pasted,), client),
    ensures
        client.cookie@ == cookie,
{
    law_pasted_cookie_is_kept(before, between, cookie, behind);
}

/// The id of a new folder is the one that the reply gives, under `fid`, or under
/// `fid` in its own data.
pub proof fn law_new_folder_has_its_id(
    reply: Envelope<serde_json::Value>,
    r: Result<String, QuarkError>,
)
    requires
        call_ensures(created_folder, (reply,), r),
    ensures
        !met(reply) ==> r is Err && tells_refusal(reply, r->Err_0@),
        met(reply) && reply.data is None ==> r is Err && r->Err_0@ == ErrorView::Malformed("data"@),
        met(reply) && reply.data is Some ==> {
            let data = json_contents(reply.data->0);
            let direct = written_at(data, seq!["fid"@]);
            let inner = written_at(data, seq!["data"@, "fid"@]);
            &&& direct is Some ==> r is Ok && r->Ok_0@ == direct->0
            &&& direct is None && inner is Some ==> r is Ok && r->Ok_0@ == inner->0
            &&& direct is None && inner is None ==> r is Err && r->Err_0@ == ErrorView::Malformed(
                "data.fid"@,
            )
        },
{
    if met(reply) && reply.data is Some {
        let data = json_contents(reply.data->0);
        let paths = folder_id_paths();
        assert(paths.len() == 2);
        if written_at(data, paths[0]) is Some {
            lemma_first_text(data, paths, 0);
        } else if written_at(data, paths[1]) is Some {
            lemma_first_text(data, paths, 1);
        } else {
            lemma_no_text(data, paths);
        }
    }
}

/// A change is acknowledged exactly where the server has met the request and the
/// reply carries something.
pub proof fn law_changes_are_acknowledged(
    reply: Envelope<serde_json::Value>,
    r: Result<(), QuarkError>,
)
    requires
        call_ensures(acknowledged, (reply,), r),
    ensures
        r is Ok <==> met(reply) && reply.data is Some,
        !met(reply) ==> tells_refusal(reply, r->Err_0@),
{
}

/// The check of an account counts what was listed, and fails as the listing failed.
pub proof fn law_account_check_counts(
    listed: Result<Vec<RemoteItem>, QuarkError>,
    r: Result<usize, QuarkError>,
)
    requires
        call_ensures(QuarkClient::check_account, (listed,), r),
    ensures
        listed matches Ok(items) ==> r is Ok && r->Ok_0 == items@.len(),
        listed matches Err(e) ==> r is Err && r->Err_0 == e,
{
    if let Ok(items) = listed {
        assert(items.len() == items@.len());
    }
}

/// The line that is shown for an error ends with what is known of it: the reason, the
/// field, or the server's code and message.
pub proof fn law_errors_tell_their_reason(e: QuarkError, r: String)
    requires
        call_ensures(QuarkError::message, (&e,), r),
    ensures
        e matches QuarkError::Io(text) ==> r@ == "本地文件操作失败: "@ + text@,
        e matches QuarkError::Http(text) ==> r@ == "网络请求失败: "@ + text@,
        e matches QuarkError::Malformed(field) ==> r@ == "夸克接口响应缺少字段: "@ + field@,
        e matches QuarkError::Login(text) ==> r@ == "二维码登录失败: "@ + text@,
        e matches QuarkError::Api { code, message } ==> exists|number: Seq<char>|
            as_i64(number) == Some(code) && r@ == #[trigger] ("夸克接口返回错误 "@ + number + ": "@
                + message@),
{
    if let QuarkError::Api { code, message } = e {
        let number = signed_decimal(code as int);
        law_decimal_reads_back(code);
        assert(r@ == "夸克接口返回错误 "@ + number + ": "@ + message@);
    }
}

/// Items that are put in order stay the same items, none lost and none doubled, in the
/// order of their lower-case names.
pub proof fn law_sorting_keeps_every_item(items: Vec<RemoteItem>, r: Vec<RemoteItem>)
    requires
        call_ensures(super::client::sort_by_name, (&items,), r),
    ensures
        r@.len() == items@.len(),
        forall|i: int| 0 <= i < items@.len() ==> item_views(r@).contains((#[trigger] items@[i])@),
        forall|j: int| 0 <= j < r@.len() ==> item_views(items@).contains((#[trigger] r@[j])@),
        forall|i: int, j: int|
            0 <= i < j < r@.len() ==> not_after(
                lowercase((#[trigger] r@[i]).name@),
                lowercase((#[trigger] r@[j]).name@),
            ),
{
    let before = item_views(items@);
    let after = item_views(r@);
    lemma_arranged(before, after);
    assert(after.len() == r@.len() && before.len() == items@.len());
    assert forall|i: int| 0 <= i < items@.len() implies after.contains((#[trigger] items@[i])@) by {
        assert(before[i] == items@[i]@);
    }
    assert forall|j: int| 0 <= j < r@.len() implies before.contains((#[trigger] r@[j])@) by {
        assert(after[j] == r@[j]@);
    }
    assert forall|i: int, j: int| 0 <= i < j < r@.len() implies not_after(
        lowercase((#[trigger] r@[i]).name@),
        lowercase((#[trigger] r@[j]).name@),
    ) by {
        assert(after[i].name == r@[i].name@ && after[j].name == r@[j].name@);
    }
}

} // verus!
