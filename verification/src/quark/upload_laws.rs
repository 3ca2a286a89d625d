//! What an upload says to the drive and to its storage service, and what becomes
//! of the replies.

use super::client::QuarkClient;
use super::error::{ErrorView, QuarkError};
use super::item::{Envelope, ItemView, RemoteItem, UploadAuthData};
use super::laws::{
    lemma_client_query, lemma_once, lemma_session_headers, met, once, posts_to,
    sent_fields, tells_refusal, tells_version, writes,
};
use super::request::{BodyView, FieldView, Method, Request, RequestView};
use super::upload::{
    part_elements, uploaded_item, AnnounceStep, Commit, FileTimes, OfferStep, Prepared, Session,
    UploadFile, UploadFileView,
};
use super::upload_run::{Upload, UploadAction, UploadEvent, UploadStage, UploadStep};
use super::wire::host_of;
use crate::checksum::{base64_text, md5_hash, sha1_hash, FileHashes};
use crate::digits::{
    as_u64, decimal, hex_bytes, law_decimal_reads_back, lemma_decimal_is_digits, signed_decimal,
};
use crate::json::{
    gives_or_omits, json_bytes, json_contents, lemma_part_at, lemma_written_at, member_of, node_at,
    part_at, written_at, JsonModel, JsonNode,
};
use crate::text::texts;
use vstd::prelude::*;
use vstd::utf8::encode_utf8;

verus! {

// ---------------------------------------------------------------------------
// Announcing
// ---------------------------------------------------------------------------

/// A time as a field of an announcement: nothing where it is not known.
pub open spec fn time_field(time: Option<i64>) -> FieldView {
    match time {
        Some(ms) => FieldView::Signed(ms as int),
        None => FieldView::Null,
    }
}

/// A file is announced, in the session, under its name and in its folder, with its
/// size and its times.
pub proof fn law_file_is_announced(client: QuarkClient, file: UploadFile, r: Request)
    requires
        call_ensures(QuarkClient::announce, (&client, &file), r),
    ensures
        posts_to(r@, "https://drive.quark.cn/1/clouddrive/file/upload/pre"@, client.cookie@),
        once(sent_fields(r@), "file_name"@, FieldView::Text(file.name@)),
        once(sent_fields(r@), "pdir_fid"@, FieldView::Text(file.parent_id@)),
        once(sent_fields(r@), "size"@, FieldView::Unsigned(file.size as nat)),
        once(sent_fields(r@), "l_created_at"@, time_field(file.created_ms)),
        once(sent_fields(r@), "l_updated_at"@, time_field(file.modified_ms)),
        once(sent_fields(r@), "ccp_hash_update"@, FieldView::Flag(true)),
        once(sent_fields(r@), "parallel_upload"@, FieldView::Flag(false)),
        once(sent_fields(r@), "dir_name"@, FieldView::Text(""@)),
        once(sent_fields(r@), "format_type"@, FieldView::Text("application/octet-stream"@)),
        sent_fields(r@).len() == 9,
{
    lemma_session_headers(r@);
    lemma_client_query(r@);
    reveal_strlit("ccp_hash_update");
    reveal_strlit("parallel_upload");
    reveal_strlit("dir_name");
    reveal_strlit("file_name");
    reveal_strlit("format_type");
    reveal_strlit("l_created_at");
    reveal_strlit("l_updated_at");
    reveal_strlit("pdir_fid");
    reveal_strlit("size");
    assert("ccp_hash_update"@[0] != "parallel_upload"@[0]);
    assert("dir_name"@[0] != "pdir_fid"@[0]);
    assert("l_created_at"@[2] != "l_updated_at"@[2]);
    let list = sent_fields(r@);
    assert(list.len() == 9);
    assert(list[0].0 == "ccp_hash_update"@);
    assert(list[1].0 == "parallel_upload"@);
    assert(list[2].0 == "dir_name"@);
    assert(list[3].0 == "file_name"@);
    assert(list[4].0 == "format_type"@);
    assert(list[5].0 == "l_created_at"@);
    assert(list[6].0 == "l_updated_at"@);
    assert(list[7].0 == "pdir_fid"@);
    assert(list[8].0 == "size"@);
    lemma_once(list, 0);
    lemma_once(list, 1);
    lemma_once(list, 2);
    lemma_once(list, 3);
    lemma_once(list, 4);
    lemma_once(list, 5);
    lemma_once(list, 6);
    lemma_once(list, 7);
    lemma_once(list, 8);
}

/// An upload begins with the announcement of its file, in the client's session.
/// What is announced is what was found of the file.
pub proof fn law_upload_begins(
    client: QuarkClient,
    name: String,
    parent_id: String,
    size: u64,
    times: FileTimes,
    hashes: FileHashes,
    file: UploadFile,
    begun: (Upload, UploadAction),
)
    requires
        call_ensures(UploadFile::new, (name, parent_id, size, times, hashes), file),
        call_ensures(QuarkClient::upload_file, (&client, file), begun),
    ensures
        begun.1 is Ask,
        ({
            let r = begun.1->Ask_0@;
            &&& posts_to(r, "https://drive.quark.cn/1/clouddrive/file/upload/pre"@, client.cookie@)
            &&& once(sent_fields(r), "file_name"@, FieldView::Text(name@))
            &&& once(sent_fields(r), "pdir_fid"@, FieldView::Text(parent_id@))
            &&& once(sent_fields(r), "size"@, FieldView::Unsigned(size as nat))
            &&& once(sent_fields(r), "l_created_at"@, time_field(times.created_ms))
            &&& once(sent_fields(r), "l_updated_at"@, time_field(times.modified_ms))
        }),
        begun.0.stage matches UploadStage::Announcing { client: c, file: f } && c.cookie@
            == client.cookie@ && f == file,
        file.md5@ == hex_bytes(md5_hash(hashes.content())),
        file.sha1@ == hex_bytes(sha1_hash(hashes.content())),
        file.now_ms == times.now_ms,
{
    let r = begun.1->Ask_0;
    lemma_session_headers(r@);
    lemma_client_query(r@);
    reveal_strlit("ccp_hash_update");
    reveal_strlit("parallel_upload");
    reveal_strlit("dir_name");
    reveal_strlit("file_name");
    reveal_strlit("format_type");
    reveal_strlit("l_created_at");
    reveal_strlit("l_updated_at");
    reveal_strlit("pdir_fid");
    reveal_strlit("size");
    assert("ccp_hash_update"@[0] != "parallel_upload"@[0]);
    assert("dir_name"@[0] != "pdir_fid"@[0]);
    assert("l_created_at"@[2] != "l_updated_at"@[2]);
    let list = sent_fields(r@);
    assert(list.len() == 9);
    assert(list[0].0 == "ccp_hash_update"@);
    assert(list[1].0 == "parallel_upload"@);
    assert(list[2].0 == "dir_name"@);
    assert(list[3].0 == "file_name"@);
    assert(list[4].0 == "format_type"@);
    assert(list[5].0 == "l_created_at"@);
    assert(list[6].0 == "l_updated_at"@);
    assert(list[7].0 == "pdir_fid"@);
    assert(list[8].0 == "size"@);
    lemma_once(list, 0);
    lemma_once(list, 1);
    lemma_once(list, 2);
    lemma_once(list, 3);
    lemma_once(list, 4);
    lemma_once(list, 5);
    lemma_once(list, 6);
    lemma_once(list, 7);
    lemma_once(list, 8);
}

/// A reply reports success.
pub open spec fn succeeded(m: JsonModel) -> bool {
    gives_or_omits(m, "status"@, 200) && gives_or_omits(m, "code"@, 0)
}

/// A reply says that the upload is finished.
pub open spec fn says_finished(m: JsonModel) -> bool {
    node_at(m, seq!["data"@, "finish"@]) == Some(JsonNode::Truth(true))
}

/// The item of a file: it has the file's name, folder and size, is no directory,
/// and its times are the file's, or else the present; its version tells its time,
/// size and hash.
pub open spec fn is_item_of(item: ItemView, file: UploadFileView, id: Seq<char>) -> bool {
    &&& item.id == id
    &&& item.name == file.name
    &&& item.parent_id == file.parent_id
    &&& item.size == file.size
    &&& !item.is_directory
    &&& file.created_ms matches Some(ms) ==> item.created_at_ms == ms
    &&& file.created_ms is None ==> (file.now_ms matches Some(ms) ==> item.created_at_ms == ms)
    &&& file.modified_ms matches Some(ms) ==> item.modified_at_ms == ms
    &&& file.modified_ms is None ==> (file.now_ms matches Some(ms) ==> item.modified_at_ms == ms)
    &&& file.created_ms is None && file.now_ms is None ==> item.created_at_ms == 0
    &&& file.modified_ms is None && file.now_ms is None ==> item.modified_at_ms == 0
    &&& tells_version(item.version, item.modified_at_ms, file.size, file.sha1)
}

proof fn lemma_item_of(file: UploadFileView, id: Seq<char>)
    ensures
        is_item_of(uploaded_item(file, id), file, id),
{
    let item = uploaded_item(file, id);
    let a = signed_decimal(item.modified_at_ms as int);
    let b = decimal(file.size as nat);
    law_decimal_reads_back(item.modified_at_ms);
    lemma_decimal_is_digits(file.size as nat);
    assert(item.version == a + ":"@ + b + ":"@ + file.sha1);
}

proof fn lemma_data(m: JsonModel, key: Seq<char>)
    requires
        m.contains_key(seq!["data"@]),
    ensures
        written_at(member_of(m, "data"@), seq![key]) == written_at(m, seq!["data"@, key]),
        node_at(member_of(m, "data"@), seq![key]) == node_at(m, seq!["data"@, key]),
        member_of(m, "data"@).contains_key(seq![key]) <==> m.contains_key(seq!["data"@, key]),
        m.contains_key(seq!["data"@, key]) ==> member_of(m, "data"@)[seq![key]]
            == m[seq!["data"@, key]],
{
    let data = member_of(m, "data"@);
    let path = seq!["data"@, key];
    assert(path.drop_first() =~= seq![key]);
    assert(seq!["data"@] + seq![key] =~= path);
    lemma_part_at(m, path);
    lemma_part_at(data, seq![key]);
    assert(seq![key].drop_first() =~= Seq::empty());
    lemma_written_at(m, path);
    lemma_written_at(data, seq![key]);
    assert(part_at(m, path) == part_at(data, seq![key]));
}

proof fn lemma_flag(m: JsonModel, key: Seq<char>)
    ensures
        crate::json::is_true_at(m, key) <==> node_at(m, seq![key]) == Some(JsonNode::Truth(true)),
{
    let path = seq![key];
    lemma_part_at(m, path);
    assert(path.drop_first() =~= Seq::empty());
    assert(path.take(1) =~= path);
}

proof fn lemma_success(m: JsonModel)
    ensures
        succeeded(m) <==> crate::json::reported(m) is Ok,
{
    lemma_written_at(m, seq!["status"@]);
    lemma_written_at(m, seq!["code"@]);
}

/// An announcement is taken in wherever the reply reports success and names the
/// file and the task. The upload is then done exactly where the reply says so, and
/// its item is that of the file, under the id that the reply gives. Otherwise it
/// goes on with the file, in the session, for the task, in parts of the size that
/// the reply asks for, or of eight mebibytes.
pub proof fn law_announcement_is_taken_in(
    client: QuarkClient,
    file: UploadFile,
    reply: serde_json::Value,
    r: Result<AnnounceStep, QuarkError>,
)
    requires
        call_ensures(QuarkClient::upload_announced, (&client, file, &reply), r),
    ensures
        ({
            let m = json_contents(reply);
            let id = written_at(m, seq!["data"@, "fid"@]);
            let task = written_at(m, seq!["data"@, "task_id"@]);
            &&& r is Ok <==> succeeded(m) && id is Some && task is Some
            &&& r matches Ok(AnnounceStep::Done(item)) ==> says_finished(m) && is_item_of(
                item@,
                file@,
                id->0,
            )
            &&& r matches Ok(AnnounceStep::Offer(p)) ==> {
                &&& !says_finished(m)
                &&& is_item_of(p.item@, file@, id->0)
                &&& p.file == file
                &&& p.cookie@ == client.cookie@
                &&& p.task_id@ == task->0
                &&& p.part_size == (match node_at(m, seq!["metadata"@, "part_size"@]) {
                    Some(JsonNode::Integer(n)) => if 0 <= n <= u64::MAX {
                        n
                    } else {
                        8int * 1024 * 1024
                    },
                    Some(JsonNode::Text(s)) => match as_u64(s) {
                        Some(n) => n as int,
                        None => 8int * 1024 * 1024,
                    },
                    _ => 8int * 1024 * 1024,
                })
                &&& forall|key: Seq<char>|
                    written_at(json_contents(p.data), #[trigger] seq![key]) == written_at(
                        m,
                        seq!["data"@, key],
                    )
                &&& m.contains_key(seq!["data"@, "auth_info"@]) ==> json_contents(
                    p.data,
                ).contains_key(seq!["auth_info"@]) && json_contents(p.data)[seq![
                    "auth_info"@,
                ]].bytes == m[seq!["data"@, "auth_info"@]].bytes
                &&& m.contains_key(seq!["data"@, "callback"@]) ==> json_contents(
                    p.data,
                ).contains_key(seq!["callback"@]) && json_contents(p.data)[seq![
                    "callback"@,
                ]].bytes == m[seq!["data"@, "callback"@]].bytes
            }
        }),
{
    let m = json_contents(reply);
    lemma_success(m);
    lemma_part_at(m, seq!["metadata"@, "part_size"@]);
    let data = member_of(m, "data"@);
    if m.contains_key(seq!["data"@]) {
        lemma_data(m, "fid"@);
        lemma_data(m, "task_id"@);
        lemma_data(m, "finish"@);
        lemma_data(m, "auth_info"@);
        lemma_data(m, "callback"@);
        lemma_flag(data, "finish"@);
        lemma_written_at(data, seq!["fid"@]);
        lemma_written_at(data, seq!["task_id"@]);
        assert forall|key: Seq<char>| written_at(data, #[trigger] seq![key]) == written_at(
            m,
            seq!["data"@, key],
        ) by {
            lemma_data(m, key);
        }
        if written_at(m, seq!["data"@, "fid"@]) is Some {
            lemma_item_of(file@, written_at(m, seq!["data"@, "fid"@])->0);
        }
    } else {
        let path = seq!["data"@, "fid"@];
        assert(path.take(1) =~= seq!["data"@]);
    }
}

// ---------------------------------------------------------------------------
// Offering the hashes
// ---------------------------------------------------------------------------

/// Both hashes of the file are offered, each under its own name, in the session
/// and for the task of the upload.
pub proof fn law_hashes_are_offered(p: Prepared, r: Request)
    requires
        call_ensures(Prepared::request, (&p,), r),
    ensures
        posts_to(r@, "https://drive.quark.cn/1/clouddrive/file/update/hash"@, p.cookie@),
        once(sent_fields(r@), "md5"@, FieldView::Text(p.file.md5@)),
        once(sent_fields(r@), "sha1"@, FieldView::Text(p.file.sha1@)),
        once(sent_fields(r@), "task_id"@, FieldView::Text(p.task_id@)),
        sent_fields(r@).len() == 3,
{
    lemma_session_headers(r@);
    lemma_client_query(r@);
    reveal_strlit("md5");
    reveal_strlit("sha1");
    reveal_strlit("task_id");
    assert("md5"@.len() != "sha1"@.len());
    assert("md5"@.len() != "task_id"@.len());
    assert("sha1"@.len() != "task_id"@.len());
    let list = sent_fields(r@);
    assert(list.len() == 3);
    assert(list[0].0 == "md5"@);
    assert(list[1].0 == "sha1"@);
    assert(list[2].0 == "task_id"@);
    lemma_once(list, 0);
    lemma_once(list, 1);
    lemma_once(list, 2);
}

/// The text that an announcement gives under a key.
pub open spec fn announced_text(p: Prepared, key: Seq<char>) -> Option<Seq<char>> {
    written_at(json_contents(p.data), seq![key])
}

/// Where the server knows the contents by their hashes, the upload is done with
/// the item that it was announced with. Where it does not, and the file is not
/// empty, the parts go where the announcement has said, in the same session and
/// for the same task, and none has been sent yet.
pub proof fn law_offer_is_answered(
    p: Prepared,
    reply: serde_json::Value,
    r: Result<OfferStep, QuarkError>,
)
    requires
        call_ensures(Prepared::accept, (p, &reply), r),
    ensures
        ({
            let m = json_contents(reply);
            let data = json_contents(p.data);
            let complete = announced_text(p, "obj_key"@) is Some && announced_text(
                p,
                "upload_id"@,
            ) is Some && announced_text(p, "bucket"@) is Some && announced_text(
                p,
                "upload_url"@,
            ) is Some && data.contains_key(seq!["auth_info"@]);
            &&& r is Ok <==> succeeded(m) && (says_finished(m) || p.file.size > 0 && complete)
            &&& r is Ok ==> (r->Ok_0 is Done <==> says_finished(m))
            &&& r matches Ok(OfferStep::Done(item)) ==> item@ == p.item@
            &&& r matches Ok(OfferStep::Send(session)) ==> {
                &&& session.item@ == p.item@
                &&& session.cookie@ == p.cookie@
                &&& session.task_id@ == p.task_id@
                &&& session.part_size == p.part_size
                &&& session.etags@.len() == 0
                &&& session.obj_key@ == announced_text(p, "obj_key"@)->0
                &&& session.upload_id@ == announced_text(p, "upload_id"@)->0
                &&& session.bucket@ == announced_text(p, "bucket"@)->0
                &&& session.upload_url@ == announced_text(p, "upload_url"@)->0
                &&& json_bytes(json_contents(session.auth_info)) == data[seq!["auth_info"@]].bytes
                &&& session.callback is Some <==> data.contains_key(seq!["callback"@])
                &&& session.callback matches Some(v) ==> json_bytes(json_contents(v)) == data[seq![
                    "callback"@,
                ]].bytes
            }
        }),
{
    let m = json_contents(reply);
    let data = json_contents(p.data);
    lemma_success(m);
    lemma_written_at(data, seq!["obj_key"@]);
    lemma_written_at(data, seq!["upload_id"@]);
    lemma_written_at(data, seq!["bucket"@]);
    lemma_written_at(data, seq!["upload_url"@]);
    assert(seq!["auth_info"@] + Seq::<Seq<char>>::empty() =~= seq!["auth_info"@]);
    assert(seq!["callback"@] + Seq::<Seq<char>>::empty() =~= seq!["callback"@]);
    if m.contains_key(seq!["data"@]) {
        lemma_data(m, "finish"@);
        lemma_flag(member_of(m, "data"@), "finish"@);
    } else {
        let path = seq!["data"@, "finish"@];
        assert(path.take(1) =~= seq!["data"@]);
    }
}

// ---------------------------------------------------------------------------
// Keys
// ---------------------------------------------------------------------------

/// A key is asked for, in the session and for the task of the upload, with what
/// the announcement gave for it, and for the text that describes the request.
pub proof fn law_key_is_asked_for(session: Session, auth_meta: &str, r: Request)
    requires
        call_ensures(Session::upload_auth, (&session, auth_meta), r),
    ensures
        posts_to(r@, "https://drive.quark.cn/1/clouddrive/file/upload/auth"@, session.cookie@),
        once(
            sent_fields(r@),
            "auth_info"@,
            FieldView::Json(json_bytes(json_contents(session.auth_info))),
        ),
        once(sent_fields(r@), "auth_meta"@, FieldView::Text(auth_meta@)),
        once(sent_fields(r@), "task_id"@, FieldView::Text(session.task_id@)),
        sent_fields(r@).len() == 3,
{
    lemma_session_headers(r@);
    lemma_client_query(r@);
    reveal_strlit("auth_info");
    reveal_strlit("auth_meta");
    reveal_strlit("task_id");
    assert("auth_info"@[5] != "auth_meta"@[5]);
    assert("auth_info"@.len() != "task_id"@.len());
    assert("auth_meta"@.len() != "task_id"@.len());
    let list = sent_fields(r@);
    assert(list.len() == 3);
    assert(list[0].0 == "auth_info"@);
    assert(list[1].0 == "auth_meta"@);
    assert(list[2].0 == "task_id"@);
    lemma_once(list, 0);
    lemma_once(list, 1);
    lemma_once(list, 2);
}

/// The key of a reply comes out wherever the server has met the request.
pub proof fn law_key_is_taken(reply: Envelope<UploadAuthData>, r: Result<String, QuarkError>)
    requires
        call_ensures(super::upload::authorised, (reply,), r),
    ensures
        r is Ok <==> met(reply) && reply.data is Some,
        r is Ok ==> r->Ok_0@ == reply.data->0.auth_key@,
        !met(reply) ==> tells_refusal(reply, r->Err_0@),
{
}

// ---------------------------------------------------------------------------
// Parts
// ---------------------------------------------------------------------------

/// The address of an object of the storage service: the bucket stands before the
/// host.
pub open spec fn is_object_address(url: Seq<char>, session: Session) -> bool {
    url == "https://"@ + session.bucket@ + "."@ + host_of(session.upload_url@) + "/"@
        + session.obj_key@
}

/// A text describes the request that sends a part: its kind, the type of its body,
/// its date, its agent, the object, and which part of which upload it is, all as
/// the request itself says them.
pub open spec fn describes_part(meta: Seq<char>, r: RequestView, session: Session) -> bool {
    exists|kind: Seq<char>, date: Seq<char>, agent: Seq<char>, number: Seq<char>, id: Seq<char>|
        {
            &&& #[trigger] once(r.headers, "Content-Type"@, kind)
            &&& #[trigger] once(r.headers, "x-oss-date"@, date)
            &&& #[trigger] once(r.headers, "x-oss-user-agent"@, agent)
            &&& #[trigger] once(r.query, "partNumber"@, number)
            &&& #[trigger] once(r.query, "uploadId"@, id)
            &&& r.method == Method::Put
            &&& meta == "PUT\\n\\n"@ + kind + "\\n"@ + date + "\\nx-oss-date:"@ + date
                + "\\nx-oss-user-agent:"@ + agent + "\\n/"@ + session.bucket@ + "/"@
                + session.obj_key@ + "?partNumber="@ + number + "&uploadId="@ + id
        }
}

/// A request sends a part of an upload: its bytes, under the next number, at this
/// date, with this key.
pub open spec fn sends_part(
    r: RequestView,
    session: Session,
    date: Seq<char>,
    key: Seq<char>,
    part: Seq<u8>,
) -> bool {
    &&& r.method == Method::Put
    &&& is_object_address(r.url, session)
    &&& once(r.headers, "Authorization"@, key)
    &&& once(r.headers, "x-oss-date"@, date)
    &&& once(r.headers, "Content-Type"@, "application/octet-stream"@)
    &&& once(r.headers, "Referer"@, "https://pan.quark.cn/"@)
    &&& once(
        r.headers,
        "x-oss-user-agent"@,
        "aliyun-sdk-js/6.6.1 Chrome 98.0.4758.80 on Windows 10 64-bit"@,
    )
    &&& exists|number: Seq<char>|
        once(r.query, "partNumber"@, number) && #[trigger] writes(
            number,
            session.etags@.len() + 1int,
        )
    &&& once(r.query, "uploadId"@, session.upload_id@)
    &&& r.body == BodyView::Bytes(part)
}

/// The request that sends a part carries the bytes, the key, and the date; and the
/// text that the key was asked for describes this very request.
pub proof fn law_part_is_sent_as_described(
    session: Session,
    date: &str,
    auth: &str,
    part: Vec<u8>,
    meta: String,
    r: Request,
)
    requires
        call_ensures(Session::part_meta, (&session, date), meta),
        call_ensures(Session::upload_part, (&session, date, auth, part), r),
    ensures
        sends_part(r@, session, date@, auth@, part@),
        describes_part(meta@, r@, session),
{
    lemma_part(session, date@, auth@, part@, meta@, r@);
}

proof fn lemma_part(
    session: Session,
    date: Seq<char>,
    auth: Seq<char>,
    part: Seq<u8>,
    meta: Seq<char>,
    r: RequestView,
)
    requires
        r == super::upload::part_request(
            session.address(),
            session.upload_id@,
            session.next_number(),
            date,
            auth,
            part,
        ),
        meta == super::upload::part_meta(
            session.bucket@,
            session.obj_key@,
            session.upload_id@,
            session.next_number(),
            date,
        ),
    ensures
        sends_part(r, session, date, auth, part),
        describes_part(meta, r, session),
{
    reveal_strlit("Authorization");
    reveal_strlit("Content-Type");
    reveal_strlit("Referer");
    reveal_strlit("x-oss-date");
    reveal_strlit("x-oss-user-agent");
    let list = r.headers;
    assert(list.len() == 5);
    assert(list[0].0 == "Authorization"@);
    assert(list[1].0 == "Content-Type"@);
    assert(list[2].0 == "Referer"@);
    assert(list[3].0 == "x-oss-date"@);
    assert(list[4].0 == "x-oss-user-agent"@);
    lemma_once(list, 0);
    lemma_once(list, 1);
    lemma_once(list, 2);
    lemma_once(list, 3);
    lemma_once(list, 4);
    reveal_strlit("partNumber");
    reveal_strlit("uploadId");
    assert("partNumber"@.len() != "uploadId"@.len());
    let query = r.query;
    assert(query.len() == 2);
    assert(query[0].0 == "partNumber"@);
    assert(query[1].0 == "uploadId"@);
    lemma_once(query, 0);
    lemma_once(query, 1);
    lemma_decimal_is_digits(session.next_number());
    let number = decimal(session.next_number());
    assert(writes(number, session.etags@.len() + 1int));
    let kind = "application/octet-stream"@;
    let agent = "aliyun-sdk-js/6.6.1 Chrome 98.0.4758.80 on Windows 10 64-bit"@;
    reveal_strlit("PUT\\n\\napplication/octet-stream\\n");
    reveal_strlit("PUT\\n\\n");
    reveal_strlit("application/octet-stream");
    reveal_strlit("\\n");
    assert("PUT\\n\\napplication/octet-stream\\n"@ =~= "PUT\\n\\n"@ + kind + "\\n"@);
    assert(once(r.headers, "Content-Type"@, kind));
    assert(once(r.headers, "x-oss-date"@, date));
    assert(once(r.headers, "x-oss-user-agent"@, agent));
    assert(once(r.query, "partNumber"@, number));
    assert(once(r.query, "uploadId"@, session.upload_id@));
}

/// A part that was read is sent once its key has come: the same bytes, at the date
/// that stands in the text for which the key was asked, with exactly that key.
pub proof fn law_read_part_is_sent(
    reading: Upload,
    bytes: Vec<u8>,
    date: String,
    authorising: Upload,
    asked: UploadAction,
    reply: Envelope<UploadAuthData>,
    sending: Upload,
    sent: UploadAction,
)
    requires
        reading.stage is Reading,
        call_ensures(
            Upload::after,
            (reading, UploadEvent::Part { bytes, date }),
            Ok::<UploadStep, QuarkError>(UploadStep::Continue(authorising, asked)),
        ),
        call_ensures(
            Upload::after,
            (authorising, UploadEvent::Authorised(reply)),
            Ok::<UploadStep, QuarkError>(UploadStep::Continue(sending, sent)),
        ),
    ensures
        asked is Authorise,
        sent is SendPart,
        met(reply) && reply.data is Some,
        sends_part(
            sent->SendPart_0@,
            reading.stage->Reading_0,
            date@,
            reply.data->0.auth_key@,
            bytes@,
        ),
        exists|meta: Seq<char>|
            once(
                sent_fields(asked->Authorise_0@),
                "auth_meta"@,
                FieldView::Text(meta),
            ) && #[trigger] describes_part(meta, sent->SendPart_0@, reading.stage->Reading_0),
        posts_to(
            asked->Authorise_0@,
            "https://drive.quark.cn/1/clouddrive/file/upload/auth"@,
            reading.stage->Reading_0.cookie@,
        ),
{
    let session = reading.stage->Reading_0;
    let q = asked->Authorise_0@;
    let r = sent->SendPart_0@;
    lemma_session_headers(q);
    lemma_client_query(q);
    reveal_strlit("auth_info");
    reveal_strlit("auth_meta");
    reveal_strlit("task_id");
    assert("auth_info"@[5] != "auth_meta"@[5]);
    assert("auth_info"@.len() != "task_id"@.len());
    assert("auth_meta"@.len() != "task_id"@.len());
    let list = sent_fields(q);
    assert(list.len() == 3);
    assert(list[0].0 == "auth_info"@);
    assert(list[1].0 == "auth_meta"@);
    assert(list[2].0 == "task_id"@);
    lemma_once(list, 0);
    lemma_once(list, 1);
    lemma_once(list, 2);
    let meta = list[1].1->Text_0;
    lemma_part(session, date@, reply.data->0.auth_key@, bytes@, meta, r);
}

/// The tag of a part that was sent is kept behind those of the parts before it,
/// and the next part is read.
pub proof fn law_tags_are_kept_in_order(
    sending: Upload,
    tag: Option<String>,
    r: Result<UploadStep, QuarkError>,
)
    requires
        sending.stage is SendingPart,
        call_ensures(Upload::after, (sending, UploadEvent::Tagged(tag)), r),
    ensures
        r is Ok <==> tag is Some,
        r is Ok ==> {
            &&& r->Ok_0 matches UploadStep::Continue(next, action)
            &&& next.stage matches UploadStage::Reading(session)
            &&& session.etags@ == sending.stage->SendingPart_0.etags@.push(tag->0)
            &&& action == UploadAction::Read(sending.stage->SendingPart_0.part_size)
        },
{
}

// ---------------------------------------------------------------------------
// Committing
// ---------------------------------------------------------------------------

/// A text describes the request that commits an upload: its kind, the hash and the
/// type of its body, its date, its callback, its agent, the object, and which
/// upload it is, all as the request itself says them.
pub open spec fn describes_commit(meta: Seq<char>, r: RequestView, session: Session) -> bool {
    exists|
        hash: Seq<char>,
        kind: Seq<char>,
        date: Seq<char>,
        callback: Seq<char>,
        agent: Seq<char>,
        id: Seq<char>,
    |
        {
            &&& #[trigger] once(r.headers, "Content-MD5"@, hash)
            &&& #[trigger] once(r.headers, "Content-Type"@, kind)
            &&& #[trigger] once(r.headers, "x-oss-date"@, date)
            &&& #[trigger] once(r.headers, "x-oss-callback"@, callback)
            &&& #[trigger] once(r.headers, "x-oss-user-agent"@, agent)
            &&& #[trigger] once(r.query, "uploadId"@, id)
            &&& r.method == Method::Post
            &&& meta == "POST\\n"@ + hash + "\\n"@ + kind + "\\n"@ + date + "\\nx-oss-callback:"@
                + callback + "\\nx-oss-date:"@ + date + "\\nx-oss-user-agent:"@ + agent + "\\n/"@
                + session.bucket@ + "/"@ + session.obj_key@ + "?uploadId="@ + id
        }
}

/// A request commits an upload: with this document and its hash, with this
/// callback, at this date, with this key.
pub open spec fn sends_commit(
    r: RequestView,
    session: Session,
    commit: Commit,
    date: Seq<char>,
    key: Seq<char>,
) -> bool {
    &&& r.method == Method::Post
    &&& is_object_address(r.url, session)
    &&& once(r.headers, "Authorization"@, key)
    &&& once(r.headers, "x-oss-date"@, date)
    &&& once(r.headers, "Content-MD5"@, commit.content_md5@)
    &&& once(r.headers, "Content-Type"@, "application/xml"@)
    &&& once(r.headers, "x-oss-callback"@, commit.callback@)
    &&& once(
        r.headers,
        "x-oss-user-agent"@,
        "aliyun-sdk-js/6.6.1 Chrome 98.0.4758.80 on Windows 10 64-bit"@,
    )
    &&& once(r.query, "uploadId"@, session.upload_id@)
    &&& r.query.len() == 1
    &&& r.body == BodyView::Text(commit.xml@)
}

/// The request that commits an upload carries the document, the key, and the date;
/// and the text that the key was asked for describes this very request.
pub proof fn law_commit_is_sent_as_described(
    session: Session,
    commit: Commit,
    date: &str,
    auth: &str,
    meta: String,
    r: Request,
)
    requires
        call_ensures(Session::commit_meta, (&session, &commit, date), meta),
        call_ensures(Session::commit_upload, (&session, &commit, date, auth), r),
    ensures
        sends_commit(r@, session, commit, date@, auth@),
        describes_commit(meta@, r@, session),
{
    lemma_commit(session, commit, date@, auth@, meta@, r@);
}

proof fn lemma_commit(
    session: Session,
    commit: Commit,
    date: Seq<char>,
    auth: Seq<char>,
    meta: Seq<char>,
    r: RequestView,
)
    requires
        r == super::upload::commit_request(
            session.address(),
            session.upload_id@,
            commit.xml@,
            commit.content_md5@,
            commit.callback@,
            date,
            auth,
        ),
        meta == super::upload::commit_meta(
            session.bucket@,
            session.obj_key@,
            session.upload_id@,
            commit.content_md5@,
            commit.callback@,
            date,
        ),
    ensures
        sends_commit(r, session, commit, date, auth),
        describes_commit(meta, r, session),
{
    reveal_strlit("Authorization");
    reveal_strlit("Content-MD5");
    reveal_strlit("Content-Type");
    reveal_strlit("x-oss-callback");
    reveal_strlit("x-oss-date");
    reveal_strlit("x-oss-user-agent");
    let list = r.headers;
    assert(list.len() == 6);
    assert(list[0].0 == "Authorization"@);
    assert(list[1].0 == "Content-MD5"@);
    assert(list[2].0 == "Content-Type"@);
    assert(list[3].0 == "x-oss-callback"@);
    assert(list[4].0 == "x-oss-date"@);
    assert(list[5].0 == "x-oss-user-agent"@);
    lemma_once(list, 0);
    lemma_once(list, 1);
    lemma_once(list, 2);
    lemma_once(list, 3);
    lemma_once(list, 4);
    lemma_once(list, 5);
    let query = r.query;
    assert(query.len() == 1);
    lemma_once(query, 0);
    let kind = "application/xml"@;
    let agent = "aliyun-sdk-js/6.6.1 Chrome 98.0.4758.80 on Windows 10 64-bit"@;
    reveal_strlit("\\napplication/xml\\n");
    reveal_strlit("application/xml");
    reveal_strlit("\\n");
    assert("\\napplication/xml\\n"@ =~= "\\n"@ + kind + "\\n"@);
    let hash = commit.content_md5@;
    assert("POST\\n"@ + hash + "\\napplication/xml\\n"@ =~= "POST\\n"@ + hash + "\\n"@ + kind
        + "\\n"@);
    assert(once(r.headers, "Content-MD5"@, hash));
    assert(once(r.headers, "Content-Type"@, kind));
    assert(once(r.headers, "x-oss-date"@, date));
    assert(once(r.headers, "x-oss-callback"@, commit.callback@));
    assert(once(r.headers, "x-oss-user-agent"@, agent));
    assert(once(r.query, "uploadId"@, session.upload_id@));
}

/// A file that was read to its end is committed once the key has come: with
/// exactly that key, at the date that stands in the text for which the key was
/// asked, and with the hash of the document that is sent and the callback that was
/// announced.
pub proof fn law_read_file_is_committed(
    reading: Upload,
    callback: Vec<u8>,
    date: String,
    authorising: Upload,
    asked: UploadAction,
    reply: Envelope<UploadAuthData>,
    committing: Upload,
    sent: UploadAction,
)
    requires
        reading.stage is Reading,
        call_ensures(
            Upload::after,
            (reading, UploadEvent::End { callback, date }),
            Ok::<UploadStep, QuarkError>(UploadStep::Continue(authorising, asked)),
        ),
        call_ensures(
            Upload::after,
            (authorising, UploadEvent::Authorised(reply)),
            Ok::<UploadStep, QuarkError>(UploadStep::Continue(committing, sent)),
        ),
    ensures
        asked is Authorise,
        sent is SendCommit,
        met(reply) && reply.data is Some,
        once(sent->SendCommit_0@.headers, "Authorization"@, reply.data->0.auth_key@),
        once(sent->SendCommit_0@.headers, "x-oss-date"@, date@),
        once(sent->SendCommit_0@.headers, "x-oss-callback"@, base64_text(callback@)),
        sent->SendCommit_0@.body matches BodyView::Text(xml) && once(
            sent->SendCommit_0@.headers,
            "Content-MD5"@,
            base64_text(md5_hash(encode_utf8(xml))),
        ),
        is_object_address(sent->SendCommit_0@.url, reading.stage->Reading_0),
        exists|meta: Seq<char>|
            once(
                sent_fields(asked->Authorise_0@),
                "auth_meta"@,
                FieldView::Text(meta),
            ) && #[trigger] describes_commit(meta, sent->SendCommit_0@, reading.stage->Reading_0),
        posts_to(
            asked->Authorise_0@,
            "https://drive.quark.cn/1/clouddrive/file/upload/auth"@,
            reading.stage->Reading_0.cookie@,
        ),
{
    let session = reading.stage->Reading_0;
    let q = asked->Authorise_0@;
    let r = sent->SendCommit_0@;
    lemma_session_headers(q);
    lemma_client_query(q);
    reveal_strlit("auth_info");
    reveal_strlit("auth_meta");
    reveal_strlit("task_id");
    assert("auth_info"@[5] != "auth_meta"@[5]);
    assert("auth_info"@.len() != "task_id"@.len());
    assert("auth_meta"@.len() != "task_id"@.len());
    let list = sent_fields(q);
    assert(list.len() == 3);
    assert(list[0].0 == "auth_info"@);
    assert(list[1].0 == "auth_meta"@);
    assert(list[2].0 == "task_id"@);
    lemma_once(list, 0);
    lemma_once(list, 1);
    lemma_once(list, 2);
    let meta = list[1].1->Text_0;
    let commit = authorising.stage->AuthorisingCommit_commit;
    lemma_commit(session, commit, date@, reply.data->0.auth_key@, meta, r);
}

/// The document that lists no part.
pub open spec fn empty_document() -> Seq<char> {
    document_of(Seq::empty())
}

/// The document with some elements in it.
pub open spec fn document_of(elements: Seq<char>) -> Seq<char> {
    "<?xml version=\"1.0\" encoding=\"UTF-8\"?><CompleteMultipartUpload>"@ + elements
        + "</CompleteMultipartUpload>"@
}

/// With each tag the document that is committed gains one element at its end: the
/// next number, counted from one, and the tag. With no tag it has none.
pub proof fn law_document_lists_every_tag(
    session: Session,
    tag: String,
    longer: Session,
    callback: Vec<u8>,
    commit: Commit,
    longer_commit: Commit,
)
    requires
        longer.etags@ == session.etags@.push(tag),
        call_ensures(Session::commit, (&session, &callback), commit),
        call_ensures(Session::commit, (&longer, &callback), longer_commit),
    ensures
        session.etags@.len() == 0 ==> commit.xml@ == empty_document(),
        exists|elements: Seq<char>, number: Seq<char>|
            {
                &&& commit.xml@ == #[trigger] document_of(elements)
                &&& #[trigger] writes(number, longer.etags@.len() as int)
                &&& longer_commit.xml@ == document_of(
                    elements + "<Part><PartNumber>"@ + number + "</PartNumber><ETag>"@ + tag@
                        + "</ETag></Part>"@,
                )
            },
        longer_commit.content_md5@ == base64_text(md5_hash(encode_utf8(longer_commit.xml@))),
        longer_commit.callback@ == base64_text(callback@),
{
    let elements = part_elements(texts(session.etags@));
    assert(texts(longer.etags@).drop_last() =~= texts(session.etags@));
    assert(texts(longer.etags@).last() == tag@);
    let number = decimal(longer.etags@.len());
    lemma_decimal_is_digits(longer.etags@.len());
    assert(commit.xml@ == document_of(elements));
    assert(writes(number, longer.etags@.len() as int));
}

/// The callback is sent as it was announced, and as an empty object where none
/// was.
pub proof fn law_callback_is_sent(session: Session, r: Result<Vec<u8>, QuarkError>)
    requires
        call_ensures(Session::callback_bytes, (&session,), r),
    ensures
        r is Ok,
        session.callback matches Some(v) ==> r->Ok_0@ == json_bytes(json_contents(v)),
        session.callback is None ==> r->Ok_0@ == encode_utf8("{}"@),
{
}

// ---------------------------------------------------------------------------
// Finishing
// ---------------------------------------------------------------------------

/// An upload is finished in the session, for its object and its task.
pub proof fn law_finish_is_asked_for(session: Session, r: Request)
    requires
        call_ensures(Session::finish, (&session,), r),
    ensures
        posts_to(r@, "https://drive.quark.cn/1/clouddrive/file/upload/finish"@, session.cookie@),
        once(sent_fields(r@), "obj_key"@, FieldView::Text(session.obj_key@)),
        once(sent_fields(r@), "task_id"@, FieldView::Text(session.task_id@)),
        sent_fields(r@).len() == 2,
{
    lemma_session_headers(r@);
    lemma_client_query(r@);
    reveal_strlit("obj_key");
    reveal_strlit("task_id");
    assert("obj_key"@[0] != "task_id"@[0]);
    let list = sent_fields(r@);
    assert(list.len() == 2);
    assert(list[0].0 == "obj_key"@);
    assert(list[1].0 == "task_id"@);
    lemma_once(list, 0);
    lemma_once(list, 1);
}

/// A committed upload is finished, and where the server reports success it is done
/// with its item.
pub proof fn law_committed_upload_finishes(
    committing: Upload,
    finishing: Upload,
    asked: UploadAction,
    reply: serde_json::Value,
    r: Result<UploadStep, QuarkError>,
)
    requires
        committing.stage is Committing,
        call_ensures(
            Upload::after,
            (committing, UploadEvent::Committed),
            Ok::<UploadStep, QuarkError>(UploadStep::Continue(finishing, asked)),
        ),
        call_ensures(Upload::after, (finishing, UploadEvent::Reply(reply)), r),
    ensures
        ({
            let session = committing.stage->Committing_0;
            &&& asked is Ask
            &&& posts_to(
                asked->Ask_0@,
                "https://drive.quark.cn/1/clouddrive/file/upload/finish"@,
                session.cookie@,
            )
            &&& once(sent_fields(asked->Ask_0@), "obj_key"@, FieldView::Text(session.obj_key@))
            &&& once(sent_fields(asked->Ask_0@), "task_id"@, FieldView::Text(session.task_id@))
            &&& r is Ok <==> succeeded(json_contents(reply))
            &&& r is Ok ==> (r->Ok_0 matches UploadStep::Done(item) && item@ == session.item@)
        }),
{
    lemma_success(json_contents(reply));
    let q = asked->Ask_0@;
    lemma_session_headers(q);
    lemma_client_query(q);
    reveal_strlit("obj_key");
    reveal_strlit("task_id");
    assert("obj_key"@[0] != "task_id"@[0]);
    let list = sent_fields(q);
    assert(list.len() == 2);
    assert(list[0].0 == "obj_key"@);
    assert(list[1].0 == "task_id"@);
    lemma_once(list, 0);
    lemma_once(list, 1);
}

// ---------------------------------------------------------------------------
// From beginning to end
// ---------------------------------------------------------------------------

/// The item that an upload will end with.
pub open spec fn item_in(stage: UploadStage) -> Option<ItemView> {
    match stage {
        UploadStage::Announcing { .. } => None,
        UploadStage::Offering(p) => Some(p.item@),
        UploadStage::Reading(s) => Some(s.item@),
        UploadStage::AuthorisingPart { session, .. } => Some(session.item@),
        UploadStage::SendingPart(s) => Some(s.item@),
        UploadStage::AuthorisingCommit { session, .. } => Some(session.item@),
        UploadStage::Committing(s) => Some(s.item@),
        UploadStage::Finishing(s) => Some(s.item@),
    }
}

/// An upload ends with the item that it was announced with: from the reply to the
/// announcement on it stays the same, and it is the one that comes out.
pub proof fn law_item_stays_the_same(
    before: Upload,
    event: UploadEvent,
    r: Result<UploadStep, QuarkError>,
)
    requires
        call_ensures(Upload::after, (before, event), r),
    ensures
        r matches Ok(UploadStep::Continue(after, _)) ==> item_in(after.stage) is Some && (item_in(
            before.stage,
        ) is Some ==> item_in(after.stage) == item_in(before.stage)),
        r matches Ok(UploadStep::Done(item)) ==> (item_in(before.stage) is Some ==> item_in(
            before.stage,
        ) == Some(item@)),
{
}

/// The reply to the announcement settles the item: it is that of the file, under
/// the id that the reply gives. Where the upload goes on, the hashes are offered.
pub proof fn law_announcement_settles_the_item(
    before: Upload,
    reply: serde_json::Value,
    r: Result<UploadStep, QuarkError>,
)
    requires
        before.stage is Announcing,
        call_ensures(Upload::after, (before, UploadEvent::Reply(reply)), r),
    ensures
        ({
            let m = json_contents(reply);
            let file = before.stage->Announcing_file;
            let cookie = before.stage->Announcing_client.cookie@;
            let id = written_at(m, seq!["data"@, "fid"@]);
            let task = written_at(m, seq!["data"@, "task_id"@]);
            &&& r is Ok <==> succeeded(m) && id is Some && task is Some
            &&& r matches Ok(UploadStep::Done(item)) ==> says_finished(m) && is_item_of(
                item@,
                file@,
                id->0,
            )
            &&& r matches Ok(UploadStep::Continue(after, action)) ==> {
                &&& !says_finished(m)
                &&& item_in(after.stage) matches Some(item) && is_item_of(item, file@, id->0)
                &&& action is Ask
                &&& posts_to(
                    action->Ask_0@,
                    "https://drive.quark.cn/1/clouddrive/file/update/hash"@,
                    cookie,
                )
                &&& once(sent_fields(action->Ask_0@), "md5"@, FieldView::Text(file.md5@))
                &&& once(sent_fields(action->Ask_0@), "sha1"@, FieldView::Text(file.sha1@))
                &&& once(sent_fields(action->Ask_0@), "task_id"@, FieldView::Text(task->0))
            }
        }),
{
    let m = json_contents(reply);
    lemma_success(m);
    let data = member_of(m, "data"@);
    let file = before.stage->Announcing_file;
    if m.contains_key(seq!["data"@]) {
        lemma_data(m, "fid"@);
        lemma_data(m, "task_id"@);
        lemma_data(m, "finish"@);
        lemma_flag(data, "finish"@);
        lemma_written_at(data, seq!["fid"@]);
        lemma_written_at(data, seq!["task_id"@]);
        if written_at(m, seq!["data"@, "fid"@]) is Some {
            lemma_item_of(file@, written_at(m, seq!["data"@, "fid"@])->0);
        }
    } else {
        let path = seq!["data"@, "fid"@];
        assert(path.take(1) =~= seq!["data"@]);
    }
    if let Ok(UploadStep::Continue(after, action)) = r {
        let q = action->Ask_0@;
        lemma_session_headers(q);
        lemma_client_query(q);
        reveal_strlit("md5");
        reveal_strlit("sha1");
        reveal_strlit("task_id");
        assert("md5"@.len() != "sha1"@.len());
        assert("md5"@.len() != "task_id"@.len());
        assert("sha1"@.len() != "task_id"@.len());
        let list = sent_fields(q);
        assert(list.len() == 3);
        assert(list[0].0 == "md5"@);
        assert(list[1].0 == "sha1"@);
        assert(list[2].0 == "task_id"@);
        lemma_once(list, 0);
        lemma_once(list, 1);
        lemma_once(list, 2);
    }
}

/// The session of an upload whose parts are being sent.
pub open spec fn session_in(stage: UploadStage) -> Option<Session> {
    match stage {
        UploadStage::Reading(s) => Some(s),
        UploadStage::AuthorisingPart { session, .. } => Some(session),
        UploadStage::SendingPart(s) => Some(s),
        UploadStage::AuthorisingCommit { session, .. } => Some(session),
        UploadStage::Committing(s) => Some(s),
        UploadStage::Finishing(s) => Some(s),
        _ => None,
    }
}

/// While the parts are sent, nothing changes but the tags: the session, the task,
/// the object and where it goes stay the same, and tags are only added.
pub proof fn law_session_stays_the_same(
    before: Upload,
    event: UploadEvent,
    after: Upload,
    action: UploadAction,
)
    requires
        call_ensures(
            Upload::after,
            (before, event),
            Ok::<UploadStep, QuarkError>(UploadStep::Continue(after, action)),
        ),
        session_in(before.stage) is Some,
    ensures
        session_in(after.stage) is Some,
        ({
            let s = session_in(before.stage)->0;
            let t = session_in(after.stage)->0;
            &&& t.cookie@ == s.cookie@
            &&& t.task_id@ == s.task_id@
            &&& t.obj_key@ == s.obj_key@
            &&& t.upload_id@ == s.upload_id@
            &&& t.bucket@ == s.bucket@
            &&& t.upload_url@ == s.upload_url@
            &&& t.auth_info == s.auth_info
            &&& t.callback == s.callback
            &&& t.part_size == s.part_size
            &&& t.etags@ == s.etags@ || (event matches UploadEvent::Tagged(Some(tag)) && t.etags@
                == s.etags@.push(tag))
        }),
{
}

/// The reply to the hashes ends the upload where the server knows the contents, and
/// otherwise the parts are read, in the size that was announced, and sent where the
/// announcement has said.
pub proof fn law_offer_leads_to_the_parts(
    offering: Upload,
    reply: serde_json::Value,
    answered: Result<OfferStep, QuarkError>,
    r: Result<UploadStep, QuarkError>,
)
    requires
        offering.stage is Offering,
        call_ensures(Prepared::accept, (offering.stage->Offering_0, &reply), answered),
        call_ensures(Upload::after, (offering, UploadEvent::Reply(reply)), r),
    ensures
        r is Ok <==> answered is Ok,
        answered matches Ok(OfferStep::Done(item)) ==> r is Ok && (r->Ok_0 matches UploadStep::Done(
            x,
        ) && x@ == item@),
        answered matches Ok(OfferStep::Send(session)) ==> {
            &&& r is Ok
            &&& r->Ok_0 matches UploadStep::Continue(next, action)
            &&& action == UploadAction::Read(offering.stage->Offering_0.part_size)
            &&& next.stage matches UploadStage::Reading(s)
            &&& s.cookie@ == session.cookie@
            &&& s.task_id@ == session.task_id@
            &&& s.obj_key@ == session.obj_key@
            &&& s.upload_id@ == session.upload_id@
            &&& s.bucket@ == session.bucket@
            &&& s.upload_url@ == session.upload_url@
            &&& s.part_size == session.part_size
            &&& s.etags@.len() == 0
            &&& json_contents(s.auth_info) == json_contents(session.auth_info)
        },
{
}

/// What was read is never refused: a part, or the end of the file, always leads to a
/// key that is asked for. With the key the upload goes on, and without it it fails
/// with what the server said.
pub proof fn law_keys_decide(before: Upload, event: UploadEvent, r: Result<UploadStep, QuarkError>)
    requires
        before.awaits(event),
        call_ensures(Upload::after, (before, event), r),
    ensures
        before.stage is Reading ==> (r matches Ok(UploadStep::Continue(_, action))
            && action is Authorise),
        before.stage is AuthorisingPart || before.stage is AuthorisingCommit ==> {
            let reply = event->Authorised_0;
            &&& r is Ok <==> met(reply) && reply.data is Some
            &&& !met(reply) ==> tells_refusal(reply, r->Err_0@)
        },
        before.stage is AuthorisingPart && r is Ok ==> (r->Ok_0 matches UploadStep::Continue(
            next,
            action,
        ) && next.stage is SendingPart && action is SendPart),
        before.stage is AuthorisingCommit && r is Ok ==> (r->Ok_0 matches UploadStep::Continue(
            next,
            action,
        ) && next.stage is Committing && action is SendCommit),
        before.stage is Committing ==> (r matches Ok(UploadStep::Continue(next, action))
            && next.stage is Finishing && action is Ask),
{
}

/// A file is uploaded under the last part of its path, which must be a text.
pub proof fn law_file_keeps_its_name(name: Option<&str>, r: Result<String, QuarkError>)
    requires
        call_ensures(super::upload::local_name, (name,), r),
    ensures
        r is Ok <==> name is Some,
        r is Ok ==> r->Ok_0@ == name->0@,
        r is Err ==> r->Err_0@ == ErrorView::Malformed("local file name"@),
{
}

/// An upload is done with its item exactly where the server reports success at last.
pub proof fn law_finished_upload_gives_its_item(
    session: Session,
    reply: serde_json::Value,
    r: Result<RemoteItem, QuarkError>,
)
    requires
        call_ensures(Session::finished, (session, &reply), r),
    ensures
        r is Ok <==> succeeded(json_contents(reply)),
        r is Ok ==> r->Ok_0@ == session.item@,
{
    lemma_success(json_contents(reply));
}

/// The tag of a part is kept behind the others, and a part without a tag changes
/// nothing.
pub proof fn law_tag_is_kept(session: &mut Session, etag: Option<String>, r: Result<(), QuarkError>)
    requires
        call_ensures(Session::part_sent, (session, etag), r),
    ensures
        r is Ok <==> etag is Some,
        etag matches Some(tag) ==> final(session).etags@ == old(session).etags@.push(tag),
        etag is None ==> final(session).etags@ == old(session).etags@,
        final(session).obj_key@ == old(session).obj_key@,
        final(session).upload_id@ == old(session).upload_id@,
{
}

} // verus!
