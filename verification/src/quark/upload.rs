//! Uploading a file: announce it, offer its hashes, send its parts, commit them
//! and finish. The server may say after either of the first two steps that it
//! has the contents already.

use super::client::QuarkClient;
use super::error::{text_result, ErrorView, QuarkError};
use super::item::{version_of, version_text, Envelope, ItemView, RemoteItem, UploadAuthData};
use super::request::{
    add_field, add_optional, add_pair, add_text, drive_post, fields, optional_field, pairs,
    post_to_drive, Body, BodyView, FieldValue, FieldView, Method, Request, RequestView,
};
use super::wire::{object_address, oss_endpoint};
use crate::checksum::{
    base64_fits, base64_of, base64_text, content_md5, md5_hash, sha1_hash, FileHashes,
};
use crate::digits::{decimal, decimal_usize, hex_bytes};
use crate::json::{
    ensure_success, flag_at, is_true_at, json_at, json_bytes, json_contents, json_string,
    json_to_bytes, keys, member, member_of, part_at, reported, required_text, unsigned_of,
    value_clone, value_u64, JsonModel,
};
use crate::text::{bytes_of, texts};
use vstd::prelude::*;
use vstd::utf8::encode_utf8;

verus! {

// ---------------------------------------------------------------------------
// The file
// ---------------------------------------------------------------------------

/// What is known of the file before its upload starts.
pub struct UploadFile {
    pub name: String,
    pub parent_id: String,
    pub size: u64,
    pub created_ms: Option<i64>,
    pub modified_ms: Option<i64>,
    pub now_ms: Option<i64>,
    pub md5: String,
    pub sha1: String,
}

/// The times of a file, and the present, in milliseconds since the epoch, as far
/// as they are known.
#[derive(Clone, Copy, Debug)]
pub struct FileTimes {
    pub created_ms: Option<i64>,
    pub modified_ms: Option<i64>,
    pub now_ms: Option<i64>,
}

/// An [`UploadFile`] with its texts as sequences of characters.
pub struct UploadFileView {
    pub name: Seq<char>,
    pub parent_id: Seq<char>,
    pub size: u64,
    pub created_ms: Option<i64>,
    pub modified_ms: Option<i64>,
    pub now_ms: Option<i64>,
    pub md5: Seq<char>,
    pub sha1: Seq<char>,
}

impl View for UploadFile {
    type V = UploadFileView;

    open spec fn view(&self) -> UploadFileView {
        UploadFileView {
            name: self.name@,
            parent_id: self.parent_id@,
            size: self.size,
            created_ms: self.created_ms,
            modified_ms: self.modified_ms,
            now_ms: self.now_ms,
            md5: self.md5@,
            sha1: self.sha1@,
        }
    }
}

/// A time, or the present if there is none, or the epoch if that is unknown too.
pub open spec fn time_or_now(time: Option<i64>, now: Option<i64>) -> i64 {
    match time {
        Some(t) => t,
        None => match now {
            Some(n) => n,
            None => 0,
        },
    }
}

/// The item that the uploaded file becomes.
pub open spec fn uploaded_item(file: UploadFileView, id: Seq<char>) -> ItemView {
    let modified = time_or_now(file.modified_ms, file.now_ms);
    ItemView {
        id,
        parent_id: file.parent_id,
        name: file.name,
        is_directory: false,
        size: file.size,
        created_at_ms: time_or_now(file.created_ms, file.now_ms),
        modified_at_ms: modified,
        version: version_text(modified as int, file.size as nat, file.sha1),
    }
}

fn pick_time(time: Option<i64>, now: Option<i64>) -> (r: i64)
    ensures
        r == time_or_now(time, now),
{
    match time {
        Some(t) => t,
        None => match now {
            Some(n) => n,
            None => 0,
        },
    }
}

impl UploadFile {
    /// A file that is to be uploaded, with the hashes of its contents.
    pub fn new(
        name: String,
        parent_id: String,
        size: u64,
        times: FileTimes,
        hashes: FileHashes,
    ) -> (r: UploadFile)
        requires
            hashes.wf(),
        ensures
            r.name == name,
            r.parent_id == parent_id,
            r.size == size,
            r.created_ms == times.created_ms,
            r.modified_ms == times.modified_ms,
            r.now_ms == times.now_ms,
            r.md5@ == hex_bytes(md5_hash(hashes.content())),
            r.sha1@ == hex_bytes(sha1_hash(hashes.content())),
    {
        let (md5, sha1) = hashes.finish();
        UploadFile {
            name,
            parent_id,
            size,
            created_ms: times.created_ms,
            modified_ms: times.modified_ms,
            now_ms: times.now_ms,
            md5,
            sha1,
        }
    }

    fn item(&self, id: String) -> (r: RemoteItem)
        ensures
            r@ == uploaded_item(self@, id@),
    {
        let modified_at_ms = pick_time(self.modified_ms, self.now_ms);
        RemoteItem {
            id,
            parent_id: self.parent_id.clone(),
            name: self.name.clone(),
            is_directory: false,
            size: self.size,
            created_at_ms: pick_time(self.created_ms, self.now_ms),
            modified_at_ms,
            version: version_of(modified_at_ms, self.size, self.sha1.as_str()),
        }
    }
}

// ---------------------------------------------------------------------------
// Announcing
// ---------------------------------------------------------------------------

/// The request that announces a file.
pub open spec fn announce_request(cookie: Seq<char>, file: UploadFileView) -> RequestView {
    drive_post(
        "https://drive.quark.cn/1/clouddrive/file/upload/pre"@,
        cookie,
        seq![
            ("ccp_hash_update"@, FieldView::Flag(true)),
            ("parallel_upload"@, FieldView::Flag(false)),
            ("dir_name"@, FieldView::Text(""@)),
            ("file_name"@, FieldView::Text(file.name)),
            ("format_type"@, FieldView::Text("application/octet-stream"@)),
            ("l_created_at"@, optional_field(file.created_ms)),
            ("l_updated_at"@, optional_field(file.modified_ms)),
            ("pdir_fid"@, FieldView::Text(file.parent_id)),
            ("size"@, FieldView::Unsigned(file.size as nat)),
        ],
    )
}

/// The name under which a local file is uploaded: the last part of its path,
/// which must be a text.
pub fn local_name(name: Option<&str>) -> (r: Result<String, QuarkError>)
    ensures
        text_result(r) == (match name {
            Some(text) => Ok(text@),
            None => Err(ErrorView::Malformed("local file name"@)),
        }),
{
    match name {
        Some(text) => Ok(text.to_owned()),
        None => Err(QuarkError::Malformed("local file name")),
    }
}

/// What the reply to the announcement says.
pub struct Announced {
    pub id: Seq<char>,
    pub task_id: Seq<char>,
    pub finished: bool,
    pub data: JsonModel,
}

/// The reply to the announcement: a success with an id, a task, and word whether
/// the upload is finished already.
pub open spec fn announced(m: JsonModel) -> Result<Announced, ErrorView> {
    match reported(m) {
        Err(e) => Err(e),
        Ok(_) => if !m.contains_key(seq!["data"@]) {
            Err(ErrorView::Malformed("data"@))
        } else {
            let data = member_of(m, "data"@);
            match (required_text(data, "fid"@), required_text(data, "task_id"@)) {
                (Err(e), _) => Err(e),
                (_, Err(e)) => Err(e),
                (Ok(id), Ok(task_id)) => Ok(
                    Announced { id, task_id, finished: is_true_at(data, "finish"@), data },
                ),
            }
        },
    }
}

/// The size of the parts that the server wants, 8 MiB if it does not say.
pub open spec fn part_size_in(m: JsonModel) -> u64 {
    match part_at(m, seq!["metadata"@, "part_size"@]) {
        Some(x) => match unsigned_of(x) {
            Some(n) => n,
            None => 8388608,
        },
        None => 8388608,
    }
}

/// An upload that was announced and is not finished.
pub struct Prepared {
    pub cookie: String,
    pub file: UploadFile,
    pub item: RemoteItem,
    pub task_id: String,
    pub data: serde_json::Value,
    pub part_size: u64,
}

/// What to do after the announcement.
pub enum AnnounceStep {
    /// The server has the contents already.
    Done(RemoteItem),
    /// Offer the hashes.
    Offer(Prepared),
}

fn part_size_of(reply: &serde_json::Value) -> (r: u64)
    ensures
        r == part_size_in(json_contents(*reply)),
{
    let path: Vec<&str> = vec!["metadata", "part_size"];
    assert(keys(path@) =~= seq!["metadata"@, "part_size"@]);
    match json_at(reply, path.as_slice()) {
        Some(x) => match value_u64(x) {
            Some(n) => n,
            None => 8388608,
        },
        None => 8388608,
    }
}

impl QuarkClient {
    /// The request that announces a file.
    pub fn announce(&self, file: &UploadFile) -> (r: Request)
        ensures
            r@ == announce_request(self.cookie@, file@),
    {
        let mut body: Vec<(String, FieldValue)> = Vec::new();
        assert(fields(body@) =~= Seq::empty());
        add_field(&mut body, "ccp_hash_update", FieldValue::Flag(true));
        add_field(&mut body, "parallel_upload", FieldValue::Flag(false));
        add_text(&mut body, "dir_name", "");
        add_text(&mut body, "file_name", file.name.as_str());
        add_text(&mut body, "format_type", "application/octet-stream");
        add_optional(&mut body, "l_created_at", file.created_ms);
        add_optional(&mut body, "l_updated_at", file.modified_ms);
        add_text(&mut body, "pdir_fid", file.parent_id.as_str());
        add_field(&mut body, "size", FieldValue::Unsigned(file.size));
        assert(fields(body@) =~= announce_request(self.cookie@, file@).body->Fields_0);
        post_to_drive(
            "https://drive.quark.cn/1/clouddrive/file/upload/pre",
            self.cookie.as_str(),
            body,
        )
    }

    /// Takes in the reply to the announcement.
    pub fn upload_announced(&self, file: UploadFile, reply: &serde_json::Value) -> (r: Result<
        AnnounceStep,
        QuarkError,
    >)
        ensures
            match r {
                Ok(AnnounceStep::Done(item)) => announced(json_contents(*reply)) matches Ok(a)
                    && a.finished && item@ == uploaded_item(file@, a.id),
                Ok(AnnounceStep::Offer(p)) => announced(json_contents(*reply)) matches Ok(a) && {
                    &&& !a.finished
                    &&& p.cookie@ == self.cookie@
                    &&& p.file == file
                    &&& p.item@ == uploaded_item(file@, a.id)
                    &&& p.task_id@ == a.task_id
                    &&& json_contents(p.data) == a.data
                    &&& p.part_size == part_size_in(json_contents(*reply))
                },
                Err(e) => announced(json_contents(*reply)) == Err::<Announced, ErrorView>(e@),
            },
    {
        match ensure_success(reply) {
            Ok(_) => {},
            Err(e) => {
                return Err(e);
            },
        }
        let data = match member(reply, "data") {
            Some(data) => value_clone(data),
            None => {
                return Err(QuarkError::Malformed("data"));
            },
        };
        let id = match json_string(&data, "fid") {
            Ok(id) => id,
            Err(e) => {
                return Err(e);
            },
        };
        let task_id = match json_string(&data, "task_id") {
            Ok(task_id) => task_id,
            Err(e) => {
                return Err(e);
            },
        };
        let item = file.item(id);
        if flag_at(&data, "finish") {
            return Ok(AnnounceStep::Done(item));
        }
        let part_size = part_size_of(reply);
        Ok(
            AnnounceStep::Offer(
                Prepared { cookie: self.cookie.clone(), file, item, task_id, data, part_size },
            ),
        )
    }
}

// ---------------------------------------------------------------------------
// Offering the hashes
// ---------------------------------------------------------------------------

/// The request that offers the hashes of a file.
pub open spec fn offer_request(
    cookie: Seq<char>,
    md5: Seq<char>,
    sha1: Seq<char>,
    task_id: Seq<char>,
) -> RequestView {
    drive_post(
        "https://drive.quark.cn/1/clouddrive/file/update/hash"@,
        cookie,
        seq![
            ("md5"@, FieldView::Text(md5)),
            ("sha1"@, FieldView::Text(sha1)),
            ("task_id"@, FieldView::Text(task_id)),
        ],
    )
}

/// What the parts of an upload are sent with.
pub struct Target {
    pub obj_key: Seq<char>,
    pub upload_id: Seq<char>,
    pub bucket: Seq<char>,
    pub upload_url: Seq<char>,
    pub auth_info: JsonModel,
}

/// Where the announcement says that the parts go.
pub open spec fn target_in(data: JsonModel) -> Result<Target, ErrorView> {
    match (
        required_text(data, "obj_key"@),
        required_text(data, "upload_id"@),
        required_text(data, "bucket"@),
        required_text(data, "upload_url"@),
    ) {
        (Err(e), _, _, _) => Err(e),
        (_, Err(e), _, _) => Err(e),
        (_, _, Err(e), _) => Err(e),
        (_, _, _, Err(e)) => Err(e),
        (Ok(obj_key), Ok(upload_id), Ok(bucket), Ok(upload_url)) => if data.contains_key(
            seq!["auth_info"@],
        ) {
            Ok(
                Target {
                    obj_key,
                    upload_id,
                    bucket,
                    upload_url,
                    auth_info: member_of(data, "auth_info"@),
                },
            )
        } else {
            Err(ErrorView::Malformed("data.auth_info"@))
        },
    }
}

/// The server knows contents with these hashes.
pub open spec fn known_by_hash(m: JsonModel) -> bool {
    m.contains_key(seq!["data"@]) && is_true_at(member_of(m, "data"@), "finish"@)
}

/// What the reply to the hashes leads to: nothing more to do, or parts to send.
/// An empty file has no parts, so the server must know it.
pub open spec fn offered(size: u64, m: JsonModel, data: JsonModel) -> Result<
    Option<Target>,
    ErrorView,
> {
    match reported(m) {
        Err(e) => Err(e),
        Ok(_) => if known_by_hash(m) {
            Ok(None)
        } else if size == 0 {
            Err(ErrorView::Api(500, "夸克接口未完成零字节文件上传"@))
        } else {
            match target_in(data) {
                Ok(target) => Ok(Some(target)),
                Err(e) => Err(e),
            }
        },
    }
}

/// An upload whose parts are being sent.
pub struct Session {
    pub cookie: String,
    pub item: RemoteItem,
    pub task_id: String,
    pub obj_key: String,
    pub upload_id: String,
    pub bucket: String,
    pub upload_url: String,
    pub auth_info: serde_json::Value,
    pub callback: Option<serde_json::Value>,
    pub part_size: u64,
    pub etags: Vec<String>,
}

/// What to do after the hashes were offered.
pub enum OfferStep {
    /// The server has the contents already.
    Done(RemoteItem),
    /// Send the parts.
    Send(Session),
}

/// The callback of an announcement.
pub open spec fn callback_in(data: JsonModel) -> Option<JsonModel> {
    if data.contains_key(seq!["callback"@]) {
        Some(member_of(data, "callback"@))
    } else {
        None
    }
}

pub open spec fn option_contents(v: Option<serde_json::Value>) -> Option<JsonModel> {
    match v {
        Some(x) => Some(json_contents(x)),
        None => None,
    }
}

impl Session {
    /// The session follows from what was announced and where the parts go, and
    /// no part has been sent.
    pub open spec fn starts_from(&self, p: Prepared, target: Target) -> bool {
        &&& self.cookie@ == p.cookie@
        &&& self.item == p.item
        &&& self.task_id@ == p.task_id@
        &&& self.obj_key@ == target.obj_key
        &&& self.upload_id@ == target.upload_id
        &&& self.bucket@ == target.bucket
        &&& self.upload_url@ == target.upload_url
        &&& json_contents(self.auth_info) == target.auth_info
        &&& option_contents(self.callback) == callback_in(json_contents(p.data))
        &&& self.part_size == p.part_size
        &&& self.etags@.len() == 0
    }
}

impl Prepared {
    /// The request that offers the hashes.
    pub fn request(&self) -> (r: Request)
        ensures
            r@ == offer_request(self.cookie@, self.file.md5@, self.file.sha1@, self.task_id@),
    {
        let mut body: Vec<(String, FieldValue)> = Vec::new();
        assert(fields(body@) =~= Seq::empty());
        add_text(&mut body, "md5", self.file.md5.as_str());
        add_text(&mut body, "sha1", self.file.sha1.as_str());
        add_text(&mut body, "task_id", self.task_id.as_str());
        assert(fields(body@) =~= offer_request(
            self.cookie@,
            self.file.md5@,
            self.file.sha1@,
            self.task_id@,
        ).body->Fields_0);
        post_to_drive(
            "https://drive.quark.cn/1/clouddrive/file/update/hash",
            self.cookie.as_str(),
            body,
        )
    }

    /// Takes in the reply to the hashes.
    pub fn accept(self, reply: &serde_json::Value) -> (r: Result<OfferStep, QuarkError>)
        ensures
            match r {
                Ok(OfferStep::Done(item)) => item == self.item && offered(
                    self.file.size,
                    json_contents(*reply),
                    json_contents(self.data),
                ) == Ok::<Option<Target>, ErrorView>(None),
                Ok(OfferStep::Send(session)) => offered(
                    self.file.size,
                    json_contents(*reply),
                    json_contents(self.data),
                ) matches Ok(Some(target)) && session.starts_from(self, target),
                Err(e) => offered(
                    self.file.size,
                    json_contents(*reply),
                    json_contents(self.data),
                ) == Err::<Option<Target>, ErrorView>(e@),
            },
    {
        match ensure_success(reply) {
            Ok(_) => {},
            Err(e) => {
                return Err(e);
            },
        }
        let known: bool = match member(reply, "data") {
            Some(data) => flag_at(data, "finish"),
            None => false,
        };
        if known {
            return Ok(OfferStep::Done(self.item));
        }
        if self.file.size == 0 {
            return Err(
                QuarkError::Api {
                    code: 500,
                    message: "夸克接口未完成零字节文件上传".to_owned(),
                },
            );
        }
        let obj_key = match json_string(&self.data, "obj_key") {
            Ok(s) => s,
            Err(e) => {
                return Err(e);
            },
        };
        let upload_id = match json_string(&self.data, "upload_id") {
            Ok(s) => s,
            Err(e) => {
                return Err(e);
            },
        };
        let bucket = match json_string(&self.data, "bucket") {
            Ok(s) => s,
            Err(e) => {
                return Err(e);
            },
        };
        let upload_url = match json_string(&self.data, "upload_url") {
            Ok(s) => s,
            Err(e) => {
                return Err(e);
            },
        };
        let auth_info = match member(&self.data, "auth_info") {
            Some(v) => value_clone(v),
            None => {
                return Err(QuarkError::Malformed("data.auth_info"));
            },
        };
        let callback = match member(&self.data, "callback") {
            Some(v) => Some(value_clone(v)),
            None => None,
        };
        Ok(
            OfferStep::Send(
                Session {
                    cookie: self.cookie,
                    item: self.item,
                    task_id: self.task_id,
                    obj_key,
                    upload_id,
                    bucket,
                    upload_url,
                    auth_info,
                    callback,
                    part_size: self.part_size,
                    etags: Vec::new(),
                },
            ),
        )
    }
}

// ---------------------------------------------------------------------------
// Authorisation
// ---------------------------------------------------------------------------

/// The name under which the client presents itself to the storage service.
pub open spec fn user_agent() -> Seq<char> {
    "aliyun-sdk-js/6.6.1 Chrome 98.0.4758.80 on Windows 10 64-bit"@
}

/// The request to have something authorised.
pub open spec fn auth_request(
    cookie: Seq<char>,
    auth_info: Seq<u8>,
    auth_meta: Seq<char>,
    task_id: Seq<char>,
) -> RequestView {
    drive_post(
        "https://drive.quark.cn/1/clouddrive/file/upload/auth"@,
        cookie,
        seq![
            ("auth_info"@, FieldView::Json(auth_info)),
            ("auth_meta"@, FieldView::Text(auth_meta)),
            ("task_id"@, FieldView::Text(task_id)),
        ],
    )
}

impl Session {
    /// The request to have something authorised, as `auth_meta` describes it.
    pub fn upload_auth(&self, auth_meta: &str) -> (r: Request)
        ensures
            r@ == auth_request(
                self.cookie@,
                json_bytes(json_contents(self.auth_info)),
                auth_meta@,
                self.task_id@,
            ),
    {
        let mut body: Vec<(String, FieldValue)> = Vec::new();
        assert(fields(body@) =~= Seq::empty());
        add_field(&mut body, "auth_info", FieldValue::Json(value_clone(&self.auth_info)));
        add_text(&mut body, "auth_meta", auth_meta);
        add_text(&mut body, "task_id", self.task_id.as_str());
        assert(fields(body@) =~= auth_request(
            self.cookie@,
            json_bytes(json_contents(self.auth_info)),
            auth_meta@,
            self.task_id@,
        ).body->Fields_0);
        post_to_drive(
            "https://drive.quark.cn/1/clouddrive/file/upload/auth",
            self.cookie.as_str(),
            body,
        )
    }
}

/// The key that authorises a request.
pub fn authorised(reply: Envelope<UploadAuthData>) -> (r: Result<String, QuarkError>)
    ensures
        text_result(r) == (if reply.refused() {
            Err(reply.refusal())
        } else {
            match reply.data {
                Some(data) => Ok(data.auth_key@),
                None => Err(ErrorView::Malformed("data"@)),
            }
        }),
{
    match reply.into_data() {
        Ok(data) => Ok(data.auth_key),
        Err(e) => Err(e),
    }
}

// ---------------------------------------------------------------------------
// Parts
// ---------------------------------------------------------------------------

/// What is authorised for one part. The breaks between its fields are written
/// as a backslash and an `n`.
pub open spec fn part_meta(
    bucket: Seq<char>,
    obj_key: Seq<char>,
    upload_id: Seq<char>,
    number: nat,
    date: Seq<char>,
) -> Seq<char> {
    "PUT\\n\\napplication/octet-stream\\n"@ + date + "\\nx-oss-date:"@ + date
        + "\\nx-oss-user-agent:"@ + user_agent() + "\\n/"@ + bucket + "/"@ + obj_key
        + "?partNumber="@ + decimal(number) + "&uploadId="@ + upload_id
}

/// The request that sends one part.
pub open spec fn part_request(
    address: Seq<char>,
    upload_id: Seq<char>,
    number: nat,
    date: Seq<char>,
    auth: Seq<char>,
    part: Seq<u8>,
) -> RequestView {
    RequestView {
        method: Method::Put,
        url: address,
        query: seq![("partNumber"@, decimal(number)), ("uploadId"@, upload_id)],
        headers: seq![
            ("Authorization"@, auth),
            ("Content-Type"@, "application/octet-stream"@),
            ("Referer"@, "https://pan.quark.cn/"@),
            ("x-oss-date"@, date),
            ("x-oss-user-agent"@, user_agent()),
        ],
        body: BodyView::Bytes(part),
    }
}

impl Session {
    /// The number of the next part; the first is 1.
    pub open spec fn next_number(&self) -> nat {
        self.etags@.len() + 1
    }

    /// The address that the parts go to.
    pub open spec fn address(&self) -> Seq<char> {
        object_address(self.upload_url@, self.bucket@, self.obj_key@)
    }

    fn next_number_text(&self) -> (r: String)
        requires
            self.etags@.len() < u32::MAX,
        ensures
            r@ == decimal(self.next_number()),
    {
        decimal_usize(self.etags.len() + 1)
    }

    /// What is to be authorised for the next part.
    pub fn part_meta(&self, date: &str) -> (r: String)
        requires
            self.etags@.len() < u32::MAX,
        ensures
            r@ == part_meta(
                self.bucket@,
                self.obj_key@,
                self.upload_id@,
                self.next_number(),
                date@,
            ),
    {
        let number = self.next_number_text();
        let mut s = "PUT\\n\\napplication/octet-stream\\n".to_owned();
        s.append(date);
        s.append("\\nx-oss-date:");
        s.append(date);
        s.append("\\nx-oss-user-agent:");
        s.append("aliyun-sdk-js/6.6.1 Chrome 98.0.4758.80 on Windows 10 64-bit");
        s.append("\\n/");
        s.append(self.bucket.as_str());
        s.append("/");
        s.append(self.obj_key.as_str());
        s.append("?partNumber=");
        s.append(number.as_str());
        s.append("&uploadId=");
        s.append(self.upload_id.as_str());
        s
    }

    /// The request that sends the next part.
    pub fn upload_part(&self, date: &str, auth: &str, part: Vec<u8>) -> (r: Request)
        requires
            self.etags@.len() < u32::MAX,
        ensures
            r@ == part_request(
                self.address(),
                self.upload_id@,
                self.next_number(),
                date@,
                auth@,
                part@,
            ),
    {
        let number = self.next_number_text();
        let mut query: Vec<(String, String)> = Vec::new();
        assert(pairs(query@) =~= Seq::empty());
        add_pair(&mut query, "partNumber", number.as_str());
        add_pair(&mut query, "uploadId", self.upload_id.as_str());
        let mut headers: Vec<(String, String)> = Vec::new();
        assert(pairs(headers@) =~= Seq::empty());
        add_pair(&mut headers, "Authorization", auth);
        add_pair(&mut headers, "Content-Type", "application/octet-stream");
        add_pair(&mut headers, "Referer", "https://pan.quark.cn/");
        add_pair(&mut headers, "x-oss-date", date);
        add_pair(
            &mut headers,
            "x-oss-user-agent",
            "aliyun-sdk-js/6.6.1 Chrome 98.0.4758.80 on Windows 10 64-bit",
        );
        proof {
            let want = part_request(
                self.address(),
                self.upload_id@,
                self.next_number(),
                date@,
                auth@,
                part@,
            );
            assert(pairs(query@) =~= want.query);
            assert(pairs(headers@) =~= want.headers);
        }
        Request {
            method: Method::Put,
            url: oss_endpoint(
                self.upload_url.as_str(),
                self.bucket.as_str(),
                self.obj_key.as_str(),
            ),
            query,
            headers,
            body: Body::Bytes(part),
        }
    }

    /// Takes in the tag of the part that was sent. A part without a tag ends the
    /// upload.
    pub fn part_sent(&mut self, etag: Option<String>) -> (r: Result<(), QuarkError>)
        ensures
            match etag {
                Some(tag) => r is Ok && final(self).etags@ == old(self).etags@.push(tag),
                None => r matches Err(e) && e@ == ErrorView::Malformed("upload part ETag"@)
                    && final(self).etags@ == old(self).etags@,
            },
            *final(self) == (Session { etags: final(self).etags, ..*old(self) }),
    {
        match etag {
            Some(tag) => {
                self.etags.push(tag);
                Ok(())
            },
            None => Err(QuarkError::Malformed("upload part ETag")),
        }
    }
}

// ---------------------------------------------------------------------------
// Committing
// ---------------------------------------------------------------------------

/// The elements of the document that lists the parts.
pub open spec fn part_elements(etags: Seq<Seq<char>>) -> Seq<char>
    decreases etags.len(),
{
    if etags.len() == 0 {
        Seq::empty()
    } else {
        part_elements(etags.drop_last()) + "<Part><PartNumber>"@ + decimal(etags.len())
            + "</PartNumber><ETag>"@ + etags.last() + "</ETag></Part>"@
    }
}

/// The document that lists the parts.
pub open spec fn commit_document(etags: Seq<Seq<char>>) -> Seq<char> {
    "<?xml version=\"1.0\" encoding=\"UTF-8\"?><CompleteMultipartUpload>"@ + part_elements(etags)
        + "</CompleteMultipartUpload>"@
}

/// The bytes of the callback; an empty object if the server named none.
pub open spec fn callback_bytes(callback: Option<JsonModel>) -> Seq<u8> {
    match callback {
        Some(m) => json_bytes(m),
        None => encode_utf8("{}"@),
    }
}

/// What is authorised for the commit.
pub open spec fn commit_meta(
    bucket: Seq<char>,
    obj_key: Seq<char>,
    upload_id: Seq<char>,
    content_md5: Seq<char>,
    callback: Seq<char>,
    date: Seq<char>,
) -> Seq<char> {
    "POST\\n"@ + content_md5 + "\\napplication/xml\\n"@ + date + "\\nx-oss-callback:"@ + callback
        + "\\nx-oss-date:"@ + date + "\\nx-oss-user-agent:"@ + user_agent() + "\\n/"@ + bucket
        + "/"@ + obj_key + "?uploadId="@ + upload_id
}

/// The request that commits the parts.
pub open spec fn commit_request(
    address: Seq<char>,
    upload_id: Seq<char>,
    xml: Seq<char>,
    content_md5: Seq<char>,
    callback: Seq<char>,
    date: Seq<char>,
    auth: Seq<char>,
) -> RequestView {
    RequestView {
        method: Method::Post,
        url: address,
        query: seq![("uploadId"@, upload_id)],
        headers: seq![
            ("Authorization"@, auth),
            ("Content-MD5"@, content_md5),
            ("Content-Type"@, "application/xml"@),
            ("x-oss-callback"@, callback),
            ("x-oss-date"@, date),
            ("x-oss-user-agent"@, user_agent()),
        ],
        body: BodyView::Text(xml),
    }
}

/// The texts of a commit.
pub struct Commit {
    pub xml: String,
    pub content_md5: String,
    pub callback: String,
}

fn elements_of(etags: &Vec<String>) -> (r: String)
    ensures
        r@ == part_elements(texts(etags@)),
{
    let ghost all = texts(etags@);
    let mut out = String::new();
    let mut i: usize = 0;
    assert(all.take(0) =~= Seq::empty());
    while i < etags.len()
        invariant
            i <= etags@.len(),
            all == texts(etags@),
            out@ == part_elements(all.take(i as int)),
        decreases etags@.len() - i,
    {
        proof {
            assert(all.take(i + 1).drop_last() =~= all.take(i as int));
            assert(all.take(i + 1).last() == etags@[i as int]@);
        }
        let number = decimal_usize(i + 1);
        out.append("<Part><PartNumber>");
        out.append(number.as_str());
        out.append("</PartNumber><ETag>");
        out.append(etags[i].as_str());
        out.append("</ETag></Part>");
        i += 1;
    }
    assert(all.take(all.len() as int) =~= all);
    out
}

impl Session {
    /// The bytes of the callback that was announced.
    pub open spec fn callback_sent(&self) -> Seq<u8> {
        callback_bytes(option_contents(self.callback))
    }

    /// The callback that was announced, as bytes.
    pub fn callback_bytes(&self) -> (r: Result<Vec<u8>, QuarkError>)
        ensures
            r matches Ok(bytes) && bytes@ == self.callback_sent(),
    {
        match &self.callback {
            Some(value) => json_to_bytes(value),
            None => {
                let bytes = bytes_of("{}");
                Ok(bytes)
            },
        }
    }

    /// The texts of the commit of all parts, with the callback's bytes.
    pub fn commit(&self, callback: &Vec<u8>) -> (r: Commit)
        requires
            base64_fits(callback@.len()),
        ensures
            r.xml@ == commit_document(texts(self.etags@)),
            r.content_md5@ == base64_text(md5_hash(encode_utf8(r.xml@))),
            r.callback@ == base64_text(callback@),
    {
        let elements = elements_of(&self.etags);
        let mut xml =
            "<?xml version=\"1.0\" encoding=\"UTF-8\"?><CompleteMultipartUpload>".to_owned();
        xml.append(elements.as_str());
        xml.append("</CompleteMultipartUpload>");
        let content_md5 = content_md5(xml.as_str());
        Commit { xml, content_md5, callback: base64_of(callback.as_slice()) }
    }

    /// What is to be authorised for the commit.
    pub fn commit_meta(&self, commit: &Commit, date: &str) -> (r: String)
        ensures
            r@ == commit_meta(
                self.bucket@,
                self.obj_key@,
                self.upload_id@,
                commit.content_md5@,
                commit.callback@,
                date@,
            ),
    {
        let mut s = "POST\\n".to_owned();
        s.append(commit.content_md5.as_str());
        s.append("\\napplication/xml\\n");
        s.append(date);
        s.append("\\nx-oss-callback:");
        s.append(commit.callback.as_str());
        s.append("\\nx-oss-date:");
        s.append(date);
        s.append("\\nx-oss-user-agent:");
        s.append("aliyun-sdk-js/6.6.1 Chrome 98.0.4758.80 on Windows 10 64-bit");
        s.append("\\n/");
        s.append(self.bucket.as_str());
        s.append("/");
        s.append(self.obj_key.as_str());
        s.append("?uploadId=");
        s.append(self.upload_id.as_str());
        s
    }

    /// The request that commits the parts.
    pub fn commit_upload(&self, commit: &Commit, date: &str, auth: &str) -> (r: Request)
        ensures
            r@ == commit_request(
                self.address(),
                self.upload_id@,
                commit.xml@,
                commit.content_md5@,
                commit.callback@,
                date@,
                auth@,
            ),
    {
        let mut query: Vec<(String, String)> = Vec::new();
        assert(pairs(query@) =~= Seq::empty());
        add_pair(&mut query, "uploadId", self.upload_id.as_str());
        let mut headers: Vec<(String, String)> = Vec::new();
        assert(pairs(headers@) =~= Seq::empty());
        add_pair(&mut headers, "Authorization", auth);
        add_pair(&mut headers, "Content-MD5", commit.content_md5.as_str());
        add_pair(&mut headers, "Content-Type", "application/xml");
        add_pair(&mut headers, "x-oss-callback", commit.callback.as_str());
        add_pair(&mut headers, "x-oss-date", date);
        add_pair(
            &mut headers,
            "x-oss-user-agent",
            "aliyun-sdk-js/6.6.1 Chrome 98.0.4758.80 on Windows 10 64-bit",
        );
        proof {
            let want = commit_request(
                self.address(),
                self.upload_id@,
                commit.xml@,
                commit.content_md5@,
                commit.callback@,
                date@,
                auth@,
            );
            assert(pairs(query@) =~= want.query);
            assert(pairs(headers@) =~= want.headers);
        }
        Request {
            method: Method::Post,
            url: oss_endpoint(
                self.upload_url.as_str(),
                self.bucket.as_str(),
                self.obj_key.as_str(),
            ),
            query,
            headers,
            body: Body::Text(commit.xml.clone()),
        }
    }
}

// ---------------------------------------------------------------------------
// Finishing
// ---------------------------------------------------------------------------

/// The request that finishes an upload.
pub open spec fn finish_request(
    cookie: Seq<char>,
    obj_key: Seq<char>,
    task_id: Seq<char>,
) -> RequestView {
    drive_post(
        "https://drive.quark.cn/1/clouddrive/file/upload/finish"@,
        cookie,
        seq![("obj_key"@, FieldView::Text(obj_key)), ("task_id"@, FieldView::Text(task_id))],
    )
}

impl Session {
    /// The request that finishes the upload.
    pub fn finish(&self) -> (r: Request)
        ensures
            r@ == finish_request(self.cookie@, self.obj_key@, self.task_id@),
    {
        let mut body: Vec<(String, FieldValue)> = Vec::new();
        assert(fields(body@) =~= Seq::empty());
        add_text(&mut body, "obj_key", self.obj_key.as_str());
        add_text(&mut body, "task_id", self.task_id.as_str());
        assert(fields(body@) =~= finish_request(
            self.cookie@,
            self.obj_key@,
            self.task_id@,
        ).body->Fields_0);
        post_to_drive(
            "https://drive.quark.cn/1/clouddrive/file/upload/finish",
            self.cookie.as_str(),
            body,
        )
    }

    /// The uploaded item, if the server reports success.
    pub fn finished(self, reply: &serde_json::Value) -> (r: Result<RemoteItem, QuarkError>)
        ensures
            match r {
                Ok(item) => reported(json_contents(*reply)) is Ok && item == self.item,
                Err(e) => reported(json_contents(*reply)) == Err::<(), ErrorView>(e@),
            },
    {
        match ensure_success(reply) {
            Ok(_) => Ok(self.item),
            Err(e) => Err(e),
        }
    }
}

// ---------------------------------------------------------------------------
// Laws
// ---------------------------------------------------------------------------

/// However an upload ends, it ends with one item: the file under its own name,
/// in its own folder, with its own size and hash, and the id that the
/// announcement gave it.
pub proof fn law_every_way_gives_the_same_item(
    client: QuarkClient,
    file: UploadFile,
    announcement: serde_json::Value,
    prepared: Prepared,
    target: Target,
    session: Session,
)
    requires
        call_ensures(
            QuarkClient::upload_announced,
            (&client, file, &announcement),
            Ok::<AnnounceStep, QuarkError>(AnnounceStep::Offer(prepared)),
        ),
        session.starts_from(prepared, target),
    ensures
        announced(json_contents(announcement)) is Ok,
        prepared.item@ == uploaded_item(file@, announced(json_contents(announcement))->Ok_0.id),
        session.item@ == prepared.item@,
        !prepared.item@.is_directory,
        prepared.item@.name == file.name@,
        prepared.item@.size == file.size,
{
}

} // verus!
