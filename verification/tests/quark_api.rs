//! Requests to the drive and what their replies lead to.

use quarkdrive_windows::checksum::{base64_of, content_md5, http_date, FileHashes};
use quarkdrive_windows::json::{
    ensure_success, first_string, flag_at, json_at, json_string, json_to_bytes, number_or_string_i64,
    number_or_string_u64, parse_reply, value_i64, value_string, value_u64,
};
use quarkdrive_windows::quark::client::{
    acknowledged, created_folder, sort_by_name, ListingStep, QuarkClient,
};
use quarkdrive_windows::quark::error::QuarkError;
use quarkdrive_windows::quark::item::{
    version_of, DownloadData, Envelope, ListData, RawItem, RemoteItem, UploadAuthData,
};
use quarkdrive_windows::quark::replace::{staged_name_for, RemoteAction, ReplaceNext, ReplaceStage};
use quarkdrive_windows::quark::request::{Body, FieldValue, Method, Request};
use quarkdrive_windows::quark::upload::{
    authorised, local_name, AnnounceStep, FileTimes, OfferStep, Prepared, Session, UploadFile,
};
use quarkdrive_windows::quark::upload_run::{
    Upload, UploadAction, UploadEvent, UploadStage, UploadStep,
};
use quarkdrive_windows::quark::wire::{
    normalize_cookie, oss_endpoint, percent_encode, unix_time_ms, uuid, RequestIds,
};
use serde_json::Value;

fn json(text: &str) -> Value {
    serde_json::from_str(text).unwrap()
}

fn query_of(request: &Request) -> Vec<(&str, &str)> {
    request.query.iter().map(|(k, v)| (k.as_str(), v.as_str())).collect()
}

fn headers_of(request: &Request) -> Vec<(&str, &str)> {
    request.headers.iter().map(|(k, v)| (k.as_str(), v.as_str())).collect()
}

/// The JSON object that a request carries.
fn body_of(request: &Request) -> Value {
    let mut object = serde_json::Map::new();
    match &request.body {
        Body::Fields(fields) => {
            for (name, value) in fields {
                let value = match value {
                    FieldValue::Null => Value::Null,
                    FieldValue::Flag(b) => Value::from(*b),
                    FieldValue::Signed(i) => Value::from(*i),
                    FieldValue::Unsigned(u) => Value::from(*u),
                    FieldValue::Text(s) => Value::from(s.as_str()),
                    FieldValue::Texts(list) => Value::from(list.clone()),
                    FieldValue::Json(v) => v.clone(),
                };
                object.insert(name.clone(), value);
            }
        }
        _ => panic!("no fields"),
    }
    Value::Object(object)
}

fn ok<T>(data: T) -> Envelope<T> {
    Envelope { status: Some(200), code: 0, message: String::new(), data: Some(data) }
}

fn refused<T>() -> Envelope<T> {
    Envelope { status: Some(401), code: 31001, message: "require login".to_owned(), data: None }
}

fn raw(fid: &str, name: &str) -> RawItem {
    RawItem {
        fid: Some(fid.to_owned()),
        file_name: Some(name.to_owned()),
        dir: false,
        size: 1,
        created_at: 2,
        updated_at: 3,
        content_hash: None,
    }
}

fn item(id: &str, name: &str) -> RemoteItem {
    RemoteItem {
        id: id.to_owned(),
        parent_id: "0".to_owned(),
        name: name.to_owned(),
        is_directory: false,
        size: 5,
        created_at_ms: 1,
        modified_at_ms: 2,
        version: "2:5:".to_owned(),
    }
}

// --- wire ------------------------------------------------------------------

#[test]
fn cookie_is_normalized() {
    assert_eq!(normalize_cookie(" Cookie: a=b; c=d\r\n"), "a=b; c=d");
}

#[test]
fn cookies_of_many_kinds() {
    assert_eq!(normalize_cookie("Cookie:Cookie: a"), "a");
    assert_eq!(normalize_cookie("a=1;\r\n b=2"), "a=1; b=2");
    assert_eq!(normalize_cookie("  "), "");
    assert_eq!(normalize_cookie("cookie: a"), "cookie: a");
    assert_eq!(QuarkClient::new(" Cookie: x=y ").cookie, "x=y");
}

#[test]
fn request_ids_have_a_time_and_a_number() {
    assert_eq!(uuid(0, 0), "00000000000000000000000000000000-0000");
    assert_eq!(uuid(0x1234, 0xabcde), "00000000000000000000000000001234-abcde");
    assert_ne!(uuid(5, 1), uuid(5, 2));
    let mut ids = RequestIds::new();
    let first = ids.fresh(7);
    let second = ids.fresh(7);
    assert_eq!(first, "00000000000000000000000000000007-0000");
    assert_eq!(second, "00000000000000000000000000000007-0001");
    let mut last = RequestIds { next: u64::MAX };
    assert_eq!(last.fresh(u128::MAX), "ffffffffffffffffffffffffffffffff-ffffffffffffffff");
    assert_eq!(last.next, 0);
}

#[test]
fn percent_encoding_keeps_unreserved_bytes() {
    assert_eq!(percent_encode("aZ0-_.~"), "aZ0-_.~");
    assert_eq!(percent_encode("a b/夸"), "a%20b%2F%E5%A4%B8");
    assert_eq!(percent_encode("%41"), "%2541");
    assert_ne!(percent_encode("%41"), percent_encode("A"));
}

#[test]
fn storage_addresses() {
    assert_eq!(
        oss_endpoint("http://oss.example.com/", "bucket", "a/b"),
        "https://bucket.oss.example.com/a/b"
    );
    assert_eq!(oss_endpoint("https://http://h//", "b", "k"), "https://b.h/k");
    assert_eq!(oss_endpoint("h", "b", "k"), "https://b.h/k");
}

#[test]
fn times_before_the_epoch_or_too_late_have_no_milliseconds() {
    assert_eq!(unix_time_ms(None), None);
    assert_eq!(unix_time_ms(Some(1234)), Some(1234));
    assert_eq!(unix_time_ms(Some(i64::MAX as u128)), Some(i64::MAX));
    assert_eq!(unix_time_ms(Some(i64::MAX as u128 + 1)), None);
}

// --- checksums -------------------------------------------------------------

#[test]
fn hashes_of_known_contents() {
    let mut hashes = FileHashes::new();
    hashes.update(b"a");
    hashes.update(b"bc");
    let (md5, sha1) = hashes.finish();
    assert_eq!(md5, "900150983cd24fb0d6963f7d28e17f72");
    assert_eq!(sha1, "a9993e364706816aba3e25717850c26c9cd0d89d");
    let (md5, sha1) = FileHashes::new().finish();
    assert_eq!(md5, "d41d8cd98f00b204e9800998ecf8427e");
    assert_eq!(sha1, "da39a3ee5e6b4b0d3255bfef95601890afd80709");
}

#[test]
fn pieces_of_contents_do_not_matter() {
    let mut whole = FileHashes::new();
    whole.update(b"hello world");
    let mut pieces = FileHashes::new();
    for byte in b"hello world" {
        pieces.update(&[*byte]);
    }
    assert_eq!(whole.finish(), pieces.finish());
}

#[test]
fn base64_pads() {
    assert_eq!(base64_of(b""), "");
    assert_eq!(base64_of(b"f"), "Zg==");
    assert_eq!(base64_of(b"fo"), "Zm8=");
    assert_eq!(base64_of(b"foo"), "Zm9v");
    assert_eq!(base64_of(b"foobar"), "Zm9vYmFy");
    assert_eq!(base64_of(&[0xfb, 0xff, 0xfe]), "+//+");
    assert_eq!(content_md5(""), "1B2M2Y8AsgTpgAmY7PhCfg==");
}

#[test]
fn http_dates() {
    assert_eq!(http_date(0), "Thu, 01 Jan 1970 00:00:00 GMT");
    assert_eq!(http_date(784111777), "Sun, 06 Nov 1994 08:49:37 GMT");
    assert_eq!(http_date(253402300799), "Fri, 31 Dec 9999 23:59:59 GMT");
}

// --- JSON ------------------------------------------------------------------

#[test]
fn values_at_paths() {
    let v = json(r#"{"a":{"b":"text","n":-5,"big":18446744073709551615,"f":1.5,"t":true,"s":"42"},"l":[1]}"#);
    assert_eq!(value_string(&v, &["a", "b"]), Some("text".to_owned()));
    assert_eq!(value_string(&v, &["a", "n"]), Some("-5".to_owned()));
    assert_eq!(value_string(&v, &["a", "big"]), None);
    assert_eq!(value_string(&v, &["a", "f"]), None);
    assert_eq!(value_string(&v, &["a", "missing"]), None);
    assert_eq!(value_string(&v, &["l", "0"]), None);
    assert_eq!(value_i64(&v, &["a", "n"]), Some(-5));
    assert_eq!(value_i64(&v, &["a", "s"]), Some(42));
    assert_eq!(value_i64(&v, &["a", "b"]), None);
    assert!(json_at(&v, &[]).is_some());
    assert!(json_at(&v, &["a", "b", "c"]).is_none());
    assert!(flag_at(json_at(&v, &["a"]).unwrap(), "t"));
    assert!(!flag_at(&v, "a"));
    assert_eq!(
        first_string(&v, &vec![vec!["x"], vec!["a", "s"], vec!["a", "b"]]),
        Some("42".to_owned())
    );
    assert_eq!(first_string(&v, &vec![vec!["x"]]), None);
}

#[test]
fn numbers_in_either_form() {
    assert_eq!(value_u64(&json("7")), Some(7));
    assert_eq!(value_u64(&json("-7")), None);
    assert_eq!(value_u64(&json("\"7\"")), Some(7));
    assert_eq!(value_u64(&json("18446744073709551615")), Some(u64::MAX));
    assert_eq!(number_or_string_u64(&json("\"12\"")), 12);
    assert_eq!(number_or_string_u64(&json("12")), 12);
    assert_eq!(number_or_string_u64(&json("null")), 0);
    assert_eq!(number_or_string_u64(&json("-1")), 0);
    assert_eq!(number_or_string_i64(&json("\"-9\"")), -9);
    assert_eq!(number_or_string_i64(&json("9")), 9);
    assert_eq!(number_or_string_i64(&json("[]")), 0);
}

#[test]
fn replies_are_parsed() {
    let v = parse_reply(b"{\"status\":200}").unwrap();
    assert_eq!(value_i64(&v, &["status"]), Some(200));
    match parse_reply(b"<html>") {
        Err(e) => assert_eq!(e.message(), "网络请求失败: error decoding response body"),
        other => panic!("{other:?}"),
    }
    assert_eq!(json_to_bytes(&json("{\"a\" : [1, 2]}")).unwrap(), b"{\"a\":[1,2]}");
}

#[test]
fn required_fields() {
    let v = json(r#"{"fid":12}"#);
    assert_eq!(json_string(&v, "fid").unwrap(), "12");
    assert!(matches!(json_string(&v, "task_id"), Err(QuarkError::Malformed("task_id"))));
}

#[test]
fn successes_and_failures() {
    assert!(ensure_success(&json("{}")).is_ok());
    assert!(ensure_success(&json(r#"{"status":"200","code":0}"#)).is_ok());
    match ensure_success(&json(r#"{"status":400,"message":"bad"}"#)) {
        Err(QuarkError::Api { code, message }) => assert_eq!((code, message.as_str()), (400, "bad")),
        other => panic!("{other:?}"),
    }
    match ensure_success(&json(r#"{"status":400,"code":"31"}"#)) {
        Err(QuarkError::Api { code, message }) => {
            assert_eq!((code, message.as_str()), (31, "未知错误"))
        }
        other => panic!("{other:?}"),
    }
}

#[test]
fn error_messages() {
    assert_eq!(QuarkError::Io("x".into()).message(), "本地文件操作失败: x");
    assert_eq!(QuarkError::Http("x".into()).message(), "网络请求失败: x");
    let api = QuarkError::Api { code: -3, message: "m".into() };
    assert_eq!(api.message(), "夸克接口返回错误 -3: m");
    assert_eq!(QuarkError::Malformed("data").message(), "夸克接口响应缺少字段: data");
    assert_eq!(QuarkError::Login("x".into()).message(), "二维码登录失败: x");
}

// --- items and listings ----------------------------------------------------

#[test]
fn raw_item_maps_stable_identity() {
    let value = json(r#"{"fid":"42","file_name":"a.txt","dir":false,"size":"12","updated_at":9}"#);
    let raw = RawItem {
        fid: value_string(&value, &["fid"]),
        file_name: value_string(&value, &["file_name"]),
        dir: flag_at(&value, "dir"),
        size: number_or_string_u64(&value["size"]),
        created_at: number_or_string_i64(&value["created_at"]),
        updated_at: number_or_string_i64(&value["updated_at"]),
        content_hash: value_string(&value, &["content_hash"]),
    };
    let item = raw.into_item("0").unwrap();
    assert_eq!(
        (item.id.as_str(), item.size, item.version.as_str()),
        ("42", 12, "9:12:")
    );
}

#[test]
fn entries_without_id_or_name_are_no_items() {
    let mut without_id = raw("1", "a");
    without_id.fid = None;
    assert!(without_id.into_item("0").is_none());
    let mut without_name = raw("1", "a");
    without_name.file_name = None;
    assert!(without_name.into_item("0").is_none());
    let mut directory = raw("1", "a");
    directory.dir = true;
    directory.size = 99;
    directory.content_hash = Some("h".to_owned());
    let directory = directory.into_item("p").unwrap();
    assert_eq!((directory.size, directory.version.as_str()), (0, "3:99:h"));
    assert_eq!((directory.created_at_ms, directory.modified_at_ms), (2, 3));
    assert_eq!(directory.parent_id, "p");
}

#[test]
fn versions_tell_changes() {
    assert_eq!(version_of(-1, 23, "h"), "-1:23:h");
    assert_ne!(version_of(1, 23, ""), version_of(12, 3, ""));
    assert_ne!(version_of(1, 2, "3:4"), version_of(1, 23, "4"));
}

#[test]
fn envelopes() {
    assert_eq!(ok(5).into_data().unwrap(), 5);
    let bare: Envelope<i32> =
        Envelope { status: None, code: 0, message: String::new(), data: Some(1) };
    assert_eq!(bare.into_data().unwrap(), 1);
    let empty: Envelope<i32> =
        Envelope { status: Some(200), code: 0, message: String::new(), data: None };
    assert!(matches!(empty.into_data(), Err(QuarkError::Malformed("data"))));
    match refused::<i32>().into_data() {
        Err(QuarkError::Api { code, message }) => {
            assert_eq!((code, message.as_str()), (31001, "require login"))
        }
        _ => panic!(),
    }
    let status_only: Envelope<i32> =
        Envelope { status: Some(500), code: 0, message: "m".into(), data: Some(1) };
    assert!(matches!(status_only.into_data(), Err(QuarkError::Api { code: 500, .. })));
}

#[test]
fn a_listing_asks_for_pages() {
    let client = QuarkClient::new("k=v");
    let listing = client.list_children("77");
    let request = listing.request();
    assert_eq!(request.method, Method::Get);
    assert_eq!(request.url, "https://drive.quark.cn/1/clouddrive/file/sort");
    assert_eq!(
        query_of(&request),
        vec![
            ("pr", "ucpro"),
            ("fr", "pc"),
            ("pdir_fid", "77"),
            ("_page", "1"),
            ("_size", "500"),
            ("_fetch_total", "1"),
            ("_fetch_sub_dirs", "0"),
            ("_sort", "file_type:asc,updated_at:desc"),
        ]
    );
    assert_eq!(headers_of(&request), vec![("Cookie", "k=v"), ("Referer", "https://pan.quark.cn/")]);
    assert!(matches!(request.body, Body::Empty));
}

#[test]
fn a_listing_of_two_pages_is_sorted_and_hides_internal_names() {
    let client = QuarkClient::new("k=v");
    let listing = client.list_children("0");
    let mut first: Vec<RawItem> = (0..499).map(|i| raw(&i.to_string(), "m")).collect();
    first.push(raw("hidden", ".quarkdrive-upload-1"));
    let listing = match listing.accept(ok(ListData { list: first })) {
        Ok(ListingStep::More(listing)) => listing,
        _ => panic!("one page"),
    };
    assert_eq!(listing.page, 2);
    assert_eq!(query_of(&listing.request())[3], ("_page", "2"));
    let second = vec![raw("z", "Zebra"), raw("a", "ÄPFEL"), raw("b", "alpha")];
    let items = match listing.accept(ok(ListData { list: second })) {
        Ok(ListingStep::Done(items)) => items,
        _ => panic!("another page"),
    };
    assert_eq!(items.len(), 502);
    assert!(items.iter().all(|i| i.id != "hidden"));
    let names: Vec<String> = items.iter().map(|i| i.name.to_lowercase()).collect();
    let mut sorted = names.clone();
    sorted.sort();
    assert_eq!(names, sorted);
    assert_eq!(items[0].id, "b");
    assert_eq!(items[1].id, "0");
    assert_eq!(items[499].id, "498");
    assert_eq!(items[500].id, "z");
    assert_eq!(items[501].id, "a");
}

#[test]
fn a_refused_listing_is_an_error() {
    let listing = QuarkClient::new("k=v").list_children("0");
    assert!(matches!(listing.accept(refused()), Err(QuarkError::Api { code: 31001, .. })));
}

#[test]
fn sorting_ignores_case_and_keeps_order() {
    let items = vec![item("1", "b"), item("2", "A"), item("3", "B"), item("4", "a")];
    let ids: Vec<String> = sort_by_name(&items).into_iter().map(|i| i.id).collect();
    assert_eq!(ids, ["2", "4", "1", "3"]);
}

#[test]
fn checking_an_account_counts() {
    assert_eq!(QuarkClient::check_account(Ok(vec![item("1", "a"), item("2", "b")])).unwrap(), 2);
    assert!(QuarkClient::check_account(Err(QuarkError::Malformed("data"))).is_err());
}

// --- downloads -------------------------------------------------------------

#[test]
fn a_download_is_located_and_asked_for() {
    let download = QuarkClient::new("k=v").download_range("f1", 10, 20);
    let request = download.request();
    assert_eq!(
        request.url,
        "https://drive.quark.cn/1/clouddrive/file/download?pr=ucpro&fr=pc"
    );
    assert_eq!(body_of(&request), json(r#"{"fids":["f1"]}"#));
    let found = ok(vec![
        DownloadData { download_url: "https://cdn/x".to_owned() },
        DownloadData { download_url: "https://cdn/y".to_owned() },
    ]);
    let request = download.locate(found).unwrap();
    assert_eq!(request.method, Method::Get);
    assert_eq!(request.url, "https://cdn/x");
    assert_eq!(headers_of(&request), vec![("Range", "bytes=10-19")]);
    assert!(matches!(
        download.locate(ok(Vec::new())),
        Err(QuarkError::Malformed("data[0].download_url"))
    ));
    assert!(matches!(download.locate(refused()), Err(QuarkError::Api { .. })));
    let nothing = QuarkClient::new("k=v").download_range("f1", 0, 0);
    let request = nothing
        .locate(ok(vec![DownloadData { download_url: "u".to_owned() }]))
        .unwrap();
    assert_eq!(headers_of(&request), vec![("Range", "bytes=0-0")]);
}

#[test]
fn a_whole_file_is_cut_and_a_part_is_not() {
    let download = QuarkClient::new("").download_range("f", 2, 5);
    let content = b"0123456789".to_vec();
    assert_eq!(download.receive(200, content.clone()), b"234");
    assert_eq!(download.receive(206, b"234".to_vec()), b"234");
    assert_eq!(download.receive(200, b"012".to_vec()), b"2");
    assert_eq!(download.receive(200, b"0".to_vec()), b"");
    let open = QuarkClient::new("").download_range("f", 8, u64::MAX);
    assert_eq!(open.receive(200, content), b"89");
}

// --- changes ---------------------------------------------------------------

#[test]
fn requests_that_change_the_drive() {
    let client = QuarkClient::new("k=v");
    let params = vec![("pr", "ucpro"), ("fr", "pc"), ("uc_param_str", "")];

    let request = client.create_folder("p", "n");
    assert_eq!(request.url, "https://drive.quark.cn/1/clouddrive/file");
    assert_eq!(query_of(&request), params);
    assert_eq!(
        body_of(&request),
        json(r#"{"pdir_fid":"p","file_name":"n","dir_path":"","dir_init_lock":false}"#)
    );

    let request = client.move_file("f", "t");
    assert_eq!(request.url, "https://drive.quark.cn/1/clouddrive/file/move");
    assert_eq!(query_of(&request), params);
    assert_eq!(body_of(&request), json(r#"{"filelist":["f"],"to_pdir_fid":"t"}"#));

    let request = client.rename_file("f", "n");
    assert_eq!(request.url, "https://drive.quark.cn/1/clouddrive/file/rename");
    assert_eq!(body_of(&request), json(r#"{"fid":"f","file_name":"n"}"#));

    let request = client.delete_file("f");
    assert_eq!(
        request.url,
        "https://drive.quark.cn/1/clouddrive/file/delete?pr=ucpro&fr=pc&uc_param_str="
    );
    assert_eq!(
        body_of(&request),
        json(r#"{"action_type":2,"filelist":["f"],"exclude_fids":[]}"#)
    );
    assert_eq!(request.method, Method::Post);
    assert_eq!(headers_of(&request), vec![("Cookie", "k=v"), ("Referer", "https://pan.quark.cn/")]);
}

#[test]
fn replies_to_changes() {
    assert_eq!(created_folder(ok(json(r#"{"fid":"9"}"#))).unwrap(), "9");
    assert_eq!(created_folder(ok(json(r#"{"data":{"fid":8}}"#))).unwrap(), "8");
    assert!(matches!(
        created_folder(ok(json("{}"))),
        Err(QuarkError::Malformed("data.fid"))
    ));
    assert!(acknowledged(ok(json("{}"))).is_ok());
    assert!(acknowledged(refused()).is_err());
    let empty: Envelope<Value> =
        Envelope { status: Some(200), code: 0, message: String::new(), data: None };
    assert!(matches!(acknowledged(empty), Err(QuarkError::Malformed("data"))));
}

// --- uploads ---------------------------------------------------------------

fn upload(size: u64) -> UploadFile {
    UploadFile {
        name: "a.bin".to_owned(),
        parent_id: "p".to_owned(),
        size,
        created_ms: None,
        modified_ms: Some(1700),
        now_ms: Some(1800),
        md5: "m".to_owned(),
        sha1: "s".to_owned(),
    }
}

#[test]
fn uploads_carry_the_hashes_of_the_file() {
    let mut hashes = FileHashes::new();
    hashes.update(b"ab");
    hashes.update(b"c");
    let times = FileTimes { created_ms: Some(1), modified_ms: None, now_ms: Some(3) };
    let file = UploadFile::new("a.bin".to_owned(), "p".to_owned(), 3, times, hashes);
    assert_eq!(file.md5, "900150983cd24fb0d6963f7d28e17f72");
    assert_eq!(file.sha1, "a9993e364706816aba3e25717850c26c9cd0d89d");
    assert_eq!((file.name.as_str(), file.parent_id.as_str(), file.size), ("a.bin", "p", 3));
    assert_eq!((file.created_ms, file.modified_ms, file.now_ms), (Some(1), None, Some(3)));
}

const ANNOUNCED: &str = r#"{"status":200,"code":0,"data":{"fid":"F","task_id":"T","obj_key":"o/k","upload_id":"U","bucket":"B","upload_url":"http://oss.example.com","auth_info":{"x":[1]},"callback":{"url":"c"}},"metadata":{"part_size":4}}"#;

fn prepared(size: u64, reply: &str) -> Prepared {
    match QuarkClient::new("k=v").upload_announced(upload(size), &json(reply)) {
        Ok(AnnounceStep::Offer(p)) => p,
        _ => panic!("no offer"),
    }
}

fn session(reply: &str) -> Session {
    match prepared(10, reply).accept(&json(r#"{"data":{"finish":false}}"#)) {
        Ok(OfferStep::Send(s)) => s,
        _ => panic!("no session"),
    }
}

#[test]
fn an_upload_is_announced() {
    let request = QuarkClient::new("k=v").announce(&upload(10));
    assert_eq!(request.url, "https://drive.quark.cn/1/clouddrive/file/upload/pre");
    assert_eq!(
        body_of(&request),
        json(
            r#"{"ccp_hash_update":true,"parallel_upload":false,"dir_name":"","file_name":"a.bin","format_type":"application/octet-stream","l_created_at":null,"l_updated_at":1700,"pdir_fid":"p","size":10}"#
        )
    );
    assert_eq!(local_name(Some("n")).unwrap(), "n");
    assert!(matches!(local_name(None), Err(QuarkError::Malformed("local file name"))));
}

#[test]
fn an_announcement_may_end_the_upload() {
    let reply = json(r#"{"data":{"fid":"F","task_id":"T","finish":true}}"#);
    match QuarkClient::new("k=v").upload_announced(upload(10), &reply) {
        Ok(AnnounceStep::Done(item)) => {
            assert_eq!(item.id, "F");
            assert_eq!(item.name, "a.bin");
            assert_eq!(item.parent_id, "p");
            assert_eq!((item.created_at_ms, item.modified_at_ms), (1800, 1700));
            assert_eq!(item.version, "1700:10:s");
            assert!(!item.is_directory);
        }
        _ => panic!(),
    }
}

#[test]
fn an_announcement_needs_its_fields() {
    let client = QuarkClient::new("k=v");
    for (reply, field) in [
        (r#"{}"#, "data"),
        (r#"{"data":{"task_id":"T"}}"#, "fid"),
        (r#"{"data":{"fid":"F"}}"#, "task_id"),
    ] {
        match client.upload_announced(upload(1), &json(reply)) {
            Err(QuarkError::Malformed(name)) => assert_eq!(name, field),
            _ => panic!("{reply}"),
        }
    }
    assert!(matches!(
        client.upload_announced(upload(1), &json(r#"{"code":5}"#)),
        Err(QuarkError::Api { code: 5, .. })
    ));
}

#[test]
fn hashes_are_offered() {
    let p = prepared(10, ANNOUNCED);
    assert_eq!(p.part_size, 4);
    let request = p.request();
    assert_eq!(request.url, "https://drive.quark.cn/1/clouddrive/file/update/hash");
    assert_eq!(body_of(&request), json(r#"{"md5":"m","sha1":"s","task_id":"T"}"#));
    match p.accept(&json(r#"{"data":{"finish":true}}"#)) {
        Ok(OfferStep::Done(item)) => assert_eq!(item.id, "F"),
        _ => panic!(),
    }
    let no_size = r#"{"data":{"fid":"F","task_id":"T"}}"#;
    assert_eq!(prepared(10, no_size).part_size, 8 * 1024 * 1024);
}

#[test]
fn an_empty_file_must_be_known() {
    match prepared(0, ANNOUNCED).accept(&json("{}")) {
        Err(e) => assert_eq!(e.message(), "夸克接口返回错误 500: 夸克接口未完成零字节文件上传"),
        _ => panic!(),
    }
}

#[test]
fn parts_need_a_target() {
    let full = json(ANNOUNCED);
    for field in ["obj_key", "upload_id", "bucket", "upload_url", "auth_info"] {
        let mut reply = full.clone();
        reply["data"].as_object_mut().unwrap().remove(field);
        let expected = if field == "auth_info" { "data.auth_info" } else { field };
        match prepared(10, &reply.to_string()).accept(&json("{}")) {
            Err(QuarkError::Malformed(name)) => assert_eq!(name, expected),
            _ => panic!("{field}"),
        }
    }
    assert!(matches!(
        prepared(10, ANNOUNCED).accept(&json(r#"{"status":403}"#)),
        Err(QuarkError::Api { code: 403, .. })
    ));
}

#[test]
fn parts_are_authorised_and_sent() {
    let mut s = session(ANNOUNCED);
    let agent = "aliyun-sdk-js/6.6.1 Chrome 98.0.4758.80 on Windows 10 64-bit";
    let meta = s.part_meta("D");
    assert_eq!(
        meta,
        format!("PUT\\n\\napplication/octet-stream\\nD\\nx-oss-date:D\\nx-oss-user-agent:{agent}\\n/B/o/k?partNumber=1&uploadId=U")
    );
    let request = s.upload_auth(&meta);
    assert_eq!(request.url, "https://drive.quark.cn/1/clouddrive/file/upload/auth");
    let body = body_of(&request);
    assert_eq!(body["auth_info"], json(r#"{"x":[1]}"#));
    assert_eq!(body["auth_meta"], Value::from(meta));
    assert_eq!(body["task_id"], Value::from("T"));
    let auth = authorised(ok(UploadAuthData { auth_key: "KEY".to_owned() })).unwrap();
    let request = s.upload_part("D", &auth, vec![1, 2, 3]);
    assert_eq!(request.method, Method::Put);
    assert_eq!(request.url, "https://B.oss.example.com/o/k");
    assert_eq!(query_of(&request), vec![("partNumber", "1"), ("uploadId", "U")]);
    assert_eq!(
        headers_of(&request),
        vec![
            ("Authorization", "KEY"),
            ("Content-Type", "application/octet-stream"),
            ("Referer", "https://pan.quark.cn/"),
            ("x-oss-date", "D"),
            ("x-oss-user-agent", agent),
        ]
    );
    assert!(matches!(&request.body, Body::Bytes(b) if *b == [1, 2, 3]));
    s.part_sent(Some("\"e1\"".to_owned())).unwrap();
    assert!(s.part_meta("D").contains("partNumber=2&"));
    assert!(matches!(s.part_sent(None), Err(QuarkError::Malformed("upload part ETag"))));
    assert_eq!(s.etags.len(), 1);
    assert!(authorised(refused()).is_err());
}

#[test]
fn parts_are_committed() {
    let mut s = session(ANNOUNCED);
    s.part_sent(Some("e1".to_owned())).unwrap();
    s.part_sent(Some("e2".to_owned())).unwrap();
    let callback = s.callback_bytes().unwrap();
    assert_eq!(callback, b"{\"url\":\"c\"}");
    let commit = s.commit(&callback);
    assert_eq!(
        commit.xml,
        "<?xml version=\"1.0\" encoding=\"UTF-8\"?><CompleteMultipartUpload><Part><PartNumber>1</PartNumber><ETag>e1</ETag></Part><Part><PartNumber>2</PartNumber><ETag>e2</ETag></Part></CompleteMultipartUpload>"
    );
    assert_eq!(commit.content_md5, content_md5(&commit.xml));
    assert_eq!(commit.callback, "eyJ1cmwiOiJjIn0=");
    let meta = s.commit_meta(&commit, "D");
    assert_eq!(
        meta,
        format!(
            "POST\\n{}\\napplication/xml\\nD\\nx-oss-callback:eyJ1cmwiOiJjIn0=\\nx-oss-date:D\\nx-oss-user-agent:aliyun-sdk-js/6.6.1 Chrome 98.0.4758.80 on Windows 10 64-bit\\n/B/o/k?uploadId=U",
            commit.content_md5
        )
    );
    let request = s.commit_upload(&commit, "D", "KEY");
    assert_eq!(request.method, Method::Post);
    assert_eq!(request.url, "https://B.oss.example.com/o/k");
    assert_eq!(query_of(&request), vec![("uploadId", "U")]);
    assert_eq!(headers_of(&request)[1], ("Content-MD5", commit.content_md5.as_str()));
    assert_eq!(headers_of(&request)[3], ("x-oss-callback", "eyJ1cmwiOiJjIn0="));
    assert!(matches!(&request.body, Body::Text(t) if *t == commit.xml));
    let request = s.finish();
    assert_eq!(request.url, "https://drive.quark.cn/1/clouddrive/file/upload/finish");
    assert_eq!(body_of(&request), json(r#"{"obj_key":"o/k","task_id":"T"}"#));
    let item = s.finished(&json(r#"{"status":200}"#)).unwrap();
    assert_eq!((item.id.as_str(), item.version.as_str()), ("F", "1700:10:s"));
}

#[test]
fn a_missing_callback_is_an_empty_object() {
    let mut reply = json(ANNOUNCED);
    reply["data"].as_object_mut().unwrap().remove("callback");
    let s = session(&reply.to_string());
    assert_eq!(s.callback_bytes().unwrap(), b"{}");
    assert_eq!(s.commit(&b"{}".to_vec()).callback, "e30=");
    assert!(matches!(
        s.finished(&json(r#"{"code":7,"message":"no"}"#)),
        Err(QuarkError::Api { code: 7, .. })
    ));
}

fn go_on(upload: Upload, event: UploadEvent) -> (Upload, UploadAction) {
    match upload.after(event) {
        Ok(UploadStep::Continue(upload, action)) => (upload, action),
        Ok(UploadStep::Done(_)) => panic!("done"),
        Err(e) => panic!("{e:?}"),
    }
}

fn key() -> UploadEvent {
    UploadEvent::Authorised(ok(UploadAuthData { auth_key: "KEY".to_owned() }))
}

#[test]
fn an_upload_runs_to_its_end() {
    let (mut upload, action) = QuarkClient::new("k=v").upload_file(upload(7));
    match action {
        UploadAction::Ask(request) => {
            assert_eq!(request.url, "https://drive.quark.cn/1/clouddrive/file/upload/pre")
        }
        _ => panic!(),
    }
    let (u, action) = go_on(upload, UploadEvent::Reply(json(ANNOUNCED)));
    match action {
        UploadAction::Ask(request) => {
            assert_eq!(request.url, "https://drive.quark.cn/1/clouddrive/file/update/hash")
        }
        _ => panic!(),
    }
    let (u, action) = go_on(u, UploadEvent::Reply(json("{}")));
    assert!(matches!(action, UploadAction::Read(4)));
    upload = u;
    for (number, bytes) in [(1, vec![1, 2, 3, 4]), (2, vec![5, 6, 7])] {
        let event = UploadEvent::Part { bytes: bytes.clone(), date: "D".to_owned() };
        let (u, action) = go_on(upload, event);
        match action {
            UploadAction::Authorise(request) => {
                let meta = body_of(&request)["auth_meta"].as_str().unwrap().to_owned();
                assert!(meta.starts_with("PUT"));
                assert!(meta.ends_with(&format!("?partNumber={number}&uploadId=U")));
            }
            _ => panic!(),
        }
        let (u, action) = go_on(u, key());
        match action {
            UploadAction::SendPart(request) => {
                assert_eq!(query_of(&request)[0].1, number.to_string());
                assert_eq!(headers_of(&request)[0], ("Authorization", "KEY"));
                assert!(matches!(&request.body, Body::Bytes(b) if *b == bytes));
            }
            _ => panic!(),
        }
        let (u, action) = go_on(u, UploadEvent::Tagged(Some(format!("e{number}"))));
        assert!(matches!(action, UploadAction::Read(4)));
        upload = u;
    }
    let callback = match &upload.stage {
        UploadStage::Reading(session) => session.callback_bytes().unwrap(),
        _ => panic!(),
    };
    let (u, action) = go_on(upload, UploadEvent::End { callback, date: "D".to_owned() });
    match action {
        UploadAction::Authorise(request) => {
            assert!(body_of(&request)["auth_meta"].as_str().unwrap().starts_with("POST"))
        }
        _ => panic!(),
    }
    let (u, action) = go_on(u, key());
    match action {
        UploadAction::SendCommit(request) => match request.body {
            Body::Text(xml) => assert!(xml.contains("<PartNumber>2</PartNumber><ETag>e2</ETag>")),
            _ => panic!(),
        },
        _ => panic!(),
    }
    let (u, action) = go_on(u, UploadEvent::Committed);
    match action {
        UploadAction::Ask(request) => {
            assert_eq!(request.url, "https://drive.quark.cn/1/clouddrive/file/upload/finish")
        }
        _ => panic!(),
    }
    match u.after(UploadEvent::Reply(json("{}"))) {
        Ok(UploadStep::Done(item)) => assert_eq!((item.id.as_str(), item.size), ("F", 7)),
        _ => panic!(),
    }
}

#[test]
fn an_upload_may_end_early_or_fail() {
    let start = || QuarkClient::new("k=v").upload_file(upload(7)).0;
    let finished = json(r#"{"data":{"fid":"F","task_id":"T","finish":true}}"#);
    assert!(matches!(
        start().after(UploadEvent::Reply(finished)),
        Ok(UploadStep::Done(item)) if item.id == "F"
    ));
    assert!(matches!(
        start().after(UploadEvent::Reply(json(r#"{"status":401}"#))),
        Err(QuarkError::Api { code: 401, .. })
    ));
    let offering = || go_on(start(), UploadEvent::Reply(json(ANNOUNCED))).0;
    assert!(matches!(
        offering().after(UploadEvent::Reply(json(r#"{"data":{"finish":true}}"#))),
        Ok(UploadStep::Done(_))
    ));
    let part = || UploadEvent::Part { bytes: vec![1], date: "D".to_owned() };
    let reading = || go_on(offering(), UploadEvent::Reply(json("{}"))).0;
    let authorising = || go_on(reading(), part()).0;
    assert!(matches!(
        authorising().after(UploadEvent::Authorised(refused())),
        Err(QuarkError::Api { code: 31001, .. })
    ));
    let sending = go_on(authorising(), key()).0;
    assert!(matches!(
        sending.after(UploadEvent::Tagged(None)),
        Err(QuarkError::Malformed("upload part ETag"))
    ));
}

// --- replacements ----------------------------------------------------------

fn text_of(action: &RemoteAction) -> String {
    match action {
        RemoteAction::Rename(id, name) => format!("rename {id} {name}"),
        RemoteAction::Delete(id) => format!("delete {id}"),
    }
}

#[test]
fn a_replacement_takes_three_steps() {
    let client = QuarkClient::new("k=v");
    assert_eq!(staged_name_for("t"), ".quarkdrive-upload-t");
    let staged = item("S", ".quarkdrive-upload-t");
    let r = client.replace_file("P", "O", "a.txt", "t", staged);
    assert_eq!(text_of(&r.action(ReplaceStage::BackUp)), "rename O .quarkdrive-backup-t");
    assert!(matches!(
        r.after(ReplaceStage::BackUp, true),
        ReplaceNext::Step(ReplaceStage::Publish)
    ));
    assert_eq!(text_of(&r.action(ReplaceStage::Publish)), "rename S a.txt");
    assert!(matches!(
        r.after(ReplaceStage::Publish, true),
        ReplaceNext::Step(ReplaceStage::Discard)
    ));
    assert_eq!(text_of(&r.action(ReplaceStage::Discard)), "delete O");
    match r.after(ReplaceStage::Discard, true) {
        ReplaceNext::Done(item) => {
            assert_eq!((item.id.as_str(), item.name.as_str()), ("S", "a.txt"));
            assert_eq!(item.parent_id, "P");
            assert_eq!((item.size, item.version.as_str()), (5, "2:5:"));
        }
        _ => panic!(),
    }
}

#[test]
fn a_failed_replacement_is_undone() {
    let client = QuarkClient::new("k=v");
    let r = client.replace_file("P", "O", "a.txt", "t", item("S", ".quarkdrive-upload-t"));
    for (stage, expected) in [
        (ReplaceStage::BackUp, vec!["delete S"]),
        (ReplaceStage::Publish, vec!["rename O a.txt", "delete S"]),
        (
            ReplaceStage::Discard,
            vec!["rename S .quarkdrive-upload-t", "rename O a.txt", "delete S"],
        ),
    ] {
        match r.after(stage, false) {
            ReplaceNext::Undo(actions) => {
                assert_eq!(actions.iter().map(text_of).collect::<Vec<_>>(), expected)
            }
            _ => panic!(),
        }
    }
}
