//! Reading JSON values: members by path, and the numbers and texts they hold.
//!
//! The values are those of `serde_json`. What the library knows of one is the
//! map from the paths of its object members to what stands there.

use crate::digits::{as_i64, as_u64, decimal_i64, parse_i64, parse_u64, signed_decimal};
use crate::quark::error::{text_result, unit_result, ErrorView, QuarkError};
use vstd::prelude::*;

verus! {

// ---------------------------------------------------------------------------
// Model
// ---------------------------------------------------------------------------

/// What stands at one place of a JSON value.
pub enum JsonNode {
    /// A string.
    Text(Seq<char>),
    /// A number without fraction or exponent.
    Integer(int),
    /// `true` or `false`.
    Truth(bool),
    /// Anything else: an object, an array, `null` or another number.
    Other,
}

/// One place of a JSON value: what stands there, and the bytes that are written
/// for it.
pub struct JsonPlace {
    pub node: JsonNode,
    pub bytes: Seq<u8>,
}

/// The places of a JSON value that object keys lead to. The empty path leads
/// to the value itself.
pub type JsonModel = Map<Seq<Seq<char>>, JsonPlace>;

/// The part of `m` below the member `key`.
pub open spec fn member_of(m: JsonModel, key: Seq<char>) -> JsonModel {
    Map::new(
        |p: Seq<Seq<char>>| m.contains_key(seq![key] + p),
        |p: Seq<Seq<char>>| m[seq![key] + p],
    )
}

/// The part of `m` that the keys of `path` lead to, one after the other.
pub open spec fn part_at(m: JsonModel, path: Seq<Seq<char>>) -> Option<JsonModel>
    decreases path.len(),
{
    if path.len() == 0 {
        Some(m)
    } else if m.contains_key(seq![path[0]]) {
        part_at(member_of(m, path[0]), path.drop_first())
    } else {
        None
    }
}

/// What the value itself is.
pub open spec fn root(m: JsonModel) -> JsonNode {
    m[Seq::empty()].node
}

/// The bytes that are written for the value.
pub open spec fn json_bytes(m: JsonModel) -> Seq<u8> {
    m[Seq::empty()].bytes
}

/// The value as text: a string as it is, a signed 64-bit number in decimal.
pub open spec fn text_of(m: JsonModel) -> Option<Seq<char>> {
    match root(m) {
        JsonNode::Text(s) => Some(s),
        JsonNode::Integer(i) if i64::MIN <= i <= i64::MAX => Some(signed_decimal(i)),
        _ => None,
    }
}

/// The value as a signed number: a number, or a string that writes one.
pub open spec fn signed_of(m: JsonModel) -> Option<i64> {
    match root(m) {
        JsonNode::Integer(i) if i64::MIN <= i <= i64::MAX => Some(i as i64),
        JsonNode::Text(s) => as_i64(s),
        _ => None,
    }
}

/// The value as an unsigned number: a number, or a string that writes one.
pub open spec fn unsigned_of(m: JsonModel) -> Option<u64> {
    match root(m) {
        JsonNode::Integer(i) if 0 <= i <= u64::MAX => Some(i as u64),
        JsonNode::Text(s) => as_u64(s),
        _ => None,
    }
}

/// The text at `path`.
pub open spec fn text_at(m: JsonModel, path: Seq<Seq<char>>) -> Option<Seq<char>> {
    match part_at(m, path) {
        Some(x) => text_of(x),
        None => None,
    }
}

/// The signed number at `path`.
pub open spec fn signed_at(m: JsonModel, path: Seq<Seq<char>>) -> Option<i64> {
    match part_at(m, path) {
        Some(x) => signed_of(x),
        None => None,
    }
}

/// The text at the first of `paths` that has one.
pub open spec fn first_text(m: JsonModel, paths: Seq<Seq<Seq<char>>>) -> Option<Seq<char>>
    decreases paths.len(),
{
    if paths.len() == 0 {
        None
    } else if text_at(m, paths[0]) is Some {
        text_at(m, paths[0])
    } else {
        first_text(m, paths.drop_first())
    }
}

/// Whether `true` stands at the member `key`.
pub open spec fn is_true_at(m: JsonModel, key: Seq<char>) -> bool {
    m.contains_key(seq![key]) && root(member_of(m, key)) == JsonNode::Truth(true)
}

/// The keys of a path.
pub open spec fn keys(path: Seq<&str>) -> Seq<Seq<char>> {
    path.map_values(|k: &str| k@)
}

/// The keys of each of several paths.
pub open spec fn key_paths(paths: Seq<Vec<&str>>) -> Seq<Seq<Seq<char>>> {
    paths.map_values(|p: Vec<&str>| keys(p@))
}

pub open spec fn option_text(r: Option<String>) -> Option<Seq<char>> {
    match r {
        Some(s) => Some(s@),
        None => None,
    }
}

// ---------------------------------------------------------------------------
// The values of serde_json
// ---------------------------------------------------------------------------

/// `serde_json::Value`, a JSON value.
#[verifier::external_type_specification]
#[verifier::external_body]
pub struct ExValue(serde_json::Value);

/// The places of a value that object keys lead to, what stands there, and the
/// bytes that `serde_json::to_vec` writes for it.
pub uninterp spec fn json_contents(v: serde_json::Value) -> Map<Seq<Seq<char>>, JsonPlace>;

/// The contents of the value that `serde_json::from_slice` reads from some bytes,
/// if they are JSON.
pub uninterp spec fn json_document(bytes: Seq<u8>) -> Option<Map<Seq<Seq<char>>, JsonPlace>>;

/// `serde_json::from_slice` for a `Value`. Whether it succeeds, and with what, is a
/// function of the bytes.
#[verifier::external_body]
fn value_from_slice(bytes: &[u8]) -> (r: Option<serde_json::Value>)
    ensures
        match r {
            Some(v) => json_document(bytes@) == Some(json_contents(v)),
            None => json_document(bytes@) is None,
        },
{
    serde_json::from_slice::<serde_json::Value>(bytes).ok()
}

/// `serde_json::to_vec` for a `Value`. It fails for keys that are no strings and
/// for writers that fail; a `Value` has no such keys, and a `Vec` takes every byte.
#[verifier::external_body]
fn value_to_vec(v: &serde_json::Value) -> (r: Result<Vec<u8>, String>)
    ensures
        r is Ok,
        r->Ok_0@ == json_bytes(json_contents(*v)),
{
    serde_json::to_vec(v).map_err(|e| e.to_string())
}

/// `serde_json::Value::get` with a string: the member of an object with that
/// key. A value that is no object has no member.
#[verifier::external_body]
fn value_get<'a>(v: &'a serde_json::Value, key: &str) -> (r: Option<&'a serde_json::Value>)
    ensures
        r is Some <==> json_contents(*v).contains_key(seq![key@]),
        r matches Some(x) ==> json_contents(*x) == member_of(json_contents(*v), key@),
{
    v.get(key)
}

/// `serde_json::Value::as_str`: the text of a string.
#[verifier::external_body]
fn value_as_str(v: &serde_json::Value) -> (r: Option<&str>)
    ensures
        match root(json_contents(*v)) {
            JsonNode::Text(s) => r matches Some(t) && t@ == s,
            _ => r is None,
        },
{
    v.as_str()
}

/// `serde_json::Value::as_i64`: an integer that fits a signed 64-bit number.
#[verifier::external_body]
fn value_as_i64(v: &serde_json::Value) -> (r: Option<i64>)
    ensures
        match root(json_contents(*v)) {
            JsonNode::Integer(i) if i64::MIN <= i <= i64::MAX => r == Some(i as i64),
            _ => r is None,
        },
{
    v.as_i64()
}

/// `serde_json::Value::as_u64`: an integer that fits an unsigned 64-bit number.
#[verifier::external_body]
fn value_as_u64(v: &serde_json::Value) -> (r: Option<u64>)
    ensures
        match root(json_contents(*v)) {
            JsonNode::Integer(i) if 0 <= i <= u64::MAX => r == Some(i as u64),
            _ => r is None,
        },
{
    v.as_u64()
}

/// `serde_json::Value::as_bool`: a truth value.
#[verifier::external_body]
fn value_as_bool(v: &serde_json::Value) -> (r: Option<bool>)
    ensures
        match root(json_contents(*v)) {
            JsonNode::Truth(b) => r == Some(b),
            _ => r is None,
        },
{
    v.as_bool()
}

/// `serde_json::Value::clone`: a value with the same contents.
#[verifier::external_body]
pub(crate) fn value_clone(v: &serde_json::Value) -> (r: serde_json::Value)
    ensures
        json_contents(r) == json_contents(*v),
{
    v.clone()
}

// ---------------------------------------------------------------------------
// Reading
// ---------------------------------------------------------------------------

/// The value that a reply's body holds.
pub fn parse_reply(body: &[u8]) -> (r: Result<serde_json::Value, QuarkError>)
    ensures
        match r {
            Ok(v) => json_document(body@) == Some(json_contents(v)),
            Err(e) => json_document(body@) is None && e@ == ErrorView::Http(
                "error decoding response body"@,
            ),
        },
{
    match value_from_slice(body) {
        Some(v) => Ok(v),
        None => Err(QuarkError::Http("error decoding response body".to_owned())),
    }
}

/// The bytes of a value.
pub fn json_to_bytes(value: &serde_json::Value) -> (r: Result<Vec<u8>, QuarkError>)
    ensures
        r matches Ok(bytes) && bytes@ == json_bytes(json_contents(*value)),
{
    match value_to_vec(value) {
        Ok(bytes) => Ok(bytes),
        Err(text) => Err(QuarkError::Login(text)),
    }
}

/// The member of `value` with that key.
pub fn member<'a>(value: &'a serde_json::Value, key: &str) -> (r: Option<&'a serde_json::Value>)
    ensures
        r is Some <==> json_contents(*value).contains_key(seq![key@]),
        r matches Some(x) ==> json_contents(*x) == member_of(json_contents(*value), key@),
{
    value_get(value, key)
}

/// The value that the keys of `path` lead to.
pub fn json_at<'a>(value: &'a serde_json::Value, path: &[&str]) -> (r: Option<
    &'a serde_json::Value,
>)
    ensures
        match r {
            Some(x) => part_at(json_contents(*value), keys(path@)) == Some(json_contents(*x)),
            None => part_at(json_contents(*value), keys(path@)) is None,
        },
{
    let mut current = value;
    let mut i: usize = 0;
    assert(keys(path@).skip(0) =~= keys(path@));
    while i < path.len()
        invariant
            i <= path@.len(),
            part_at(json_contents(*value), keys(path@)) == part_at(
                json_contents(*current),
                keys(path@).skip(i as int),
            ),
        decreases path@.len() - i,
    {
        proof {
            let rest = keys(path@).skip(i as int);
            assert(rest[0] == path@[i as int]@);
            assert(rest.drop_first() =~= keys(path@).skip(i + 1));
        }
        match value_get(current, path[i]) {
            Some(x) => {
                current = x;
            },
            None => {
                return None;
            },
        }
        i += 1;
    }
    assert(keys(path@).skip(path@.len() as int) =~= Seq::empty());
    Some(current)
}

/// The text at `path`: a string, or a number in decimal.
pub fn value_string(value: &serde_json::Value, path: &[&str]) -> (r: Option<String>)
    ensures
        option_text(r) == text_at(json_contents(*value), keys(path@)),
{
    match json_at(value, path) {
        Some(item) => match value_as_str(item) {
            Some(s) => Some(s.to_owned()),
            None => match value_as_i64(item) {
                Some(n) => Some(decimal_i64(n)),
                None => None,
            },
        },
        None => None,
    }
}

/// The number at `path`: a number, or a string that writes one.
pub fn value_i64(value: &serde_json::Value, path: &[&str]) -> (r: Option<i64>)
    ensures
        r == signed_at(json_contents(*value), keys(path@)),
{
    match json_at(value, path) {
        Some(item) => match value_as_i64(item) {
            Some(n) => Some(n),
            None => match value_as_str(item) {
                Some(s) => parse_i64(s),
                None => None,
            },
        },
        None => None,
    }
}

/// The text at the first of `paths` that has one.
pub fn first_string(value: &serde_json::Value, paths: &Vec<Vec<&str>>) -> (r: Option<String>)
    ensures
        option_text(r) == first_text(json_contents(*value), key_paths(paths@)),
{
    let mut i: usize = 0;
    assert(key_paths(paths@).skip(0) =~= key_paths(paths@));
    while i < paths.len()
        invariant
            i <= paths@.len(),
            first_text(json_contents(*value), key_paths(paths@)) == first_text(
                json_contents(*value),
                key_paths(paths@).skip(i as int),
            ),
        decreases paths@.len() - i,
    {
        proof {
            let rest = key_paths(paths@).skip(i as int);
            assert(rest[0] == keys(paths@[i as int]@));
            assert(rest.drop_first() =~= key_paths(paths@).skip(i + 1));
        }
        if let Some(text) = value_string(value, paths[i].as_slice()) {
            return Some(text);
        }
        i += 1;
    }
    assert(key_paths(paths@).skip(paths@.len() as int) =~= Seq::empty());
    None
}

/// The value as an unsigned number.
pub fn value_u64(value: &serde_json::Value) -> (r: Option<u64>)
    ensures
        r == unsigned_of(json_contents(*value)),
{
    match value_as_u64(value) {
        Some(n) => Some(n),
        None => match value_as_str(value) {
            Some(s) => parse_u64(s),
            None => None,
        },
    }
}

/// Whether `true` stands at the member `key`.
pub fn flag_at(value: &serde_json::Value, key: &str) -> (r: bool)
    ensures
        r == is_true_at(json_contents(*value), key@),
{
    match value_get(value, key) {
        Some(x) => match value_as_bool(x) {
            Some(b) => b,
            None => false,
        },
        None => false,
    }
}

/// A size field, which replies give as a number or as a string; zero if it is
/// neither.
pub fn number_or_string_u64(value: &serde_json::Value) -> (r: u64)
    ensures
        r == (match unsigned_of(json_contents(*value)) {
            Some(n) => n,
            None => 0,
        }),
{
    match value_u64(value) {
        Some(n) => n,
        None => 0,
    }
}

/// A time field, which replies give as a number or as a string; zero if it is
/// neither.
pub fn number_or_string_i64(value: &serde_json::Value) -> (r: i64)
    ensures
        r == (match signed_of(json_contents(*value)) {
            Some(n) => n,
            None => 0,
        }),
{
    let nowhere: Vec<&str> = Vec::new();
    assert(keys(nowhere@) =~= Seq::empty());
    match value_i64(value, nowhere.as_slice()) {
        Some(n) => n,
        None => 0,
    }
}

/// The text of the member `key`, which has to be there.
pub open spec fn required_text(m: JsonModel, key: Seq<char>) -> Result<Seq<char>, ErrorView> {
    match text_at(m, seq![key]) {
        Some(s) => Ok(s),
        None => Err(ErrorView::Malformed(key)),
    }
}

/// The text of the member `key`, which has to be there.
pub fn json_string(value: &serde_json::Value, key: &'static str) -> (r: Result<String, QuarkError>)
    ensures
        text_result(r) == required_text(json_contents(*value), key@),
{
    let mut path: Vec<&str> = Vec::new();
    path.push(key);
    assert(keys(path@) =~= seq![key@]);
    match value_string(value, path.as_slice()) {
        Some(s) => Ok(s),
        None => Err(QuarkError::Malformed(key)),
    }
}

// ---------------------------------------------------------------------------
// The outcome that a reply reports
// ---------------------------------------------------------------------------

/// The number at the member `key`, or `otherwise` if there is none.
pub open spec fn signed_or(m: JsonModel, key: Seq<char>, otherwise: i64) -> i64 {
    match signed_at(m, seq![key]) {
        Some(n) => n,
        None => otherwise,
    }
}

/// A reply reports success with status 200 and code 0, either of which it may
/// leave out. Otherwise its code counts, and its status if the code is 0.
pub open spec fn reported(m: JsonModel) -> Result<(), ErrorView> {
    let status = signed_or(m, "status"@, 200);
    let code = signed_or(m, "code"@, 0);
    if status != 200 || code != 0 {
        Err(
            ErrorView::Api(
                if code != 0 {
                    code as int
                } else {
                    status as int
                },
                match text_at(m, seq!["message"@]) {
                    Some(s) => s,
                    None => "未知错误"@,
                },
            ),
        )
    } else {
        Ok(())
    }
}

fn number_or(value: &serde_json::Value, key: &str, otherwise: i64) -> (r: i64)
    ensures
        r == signed_or(json_contents(*value), key@, otherwise),
{
    let mut path: Vec<&str> = Vec::new();
    path.push(key);
    assert(keys(path@) =~= seq![key@]);
    match value_i64(value, path.as_slice()) {
        Some(n) => n,
        None => otherwise,
    }
}

/// The message that a reply carries, or a text that says there is none.
pub fn reply_message(value: &serde_json::Value, otherwise: &str) -> (r: String)
    ensures
        r@ == (match text_at(json_contents(*value), seq!["message"@]) {
            Some(s) => s,
            None => otherwise@,
        }),
{
    let mut path: Vec<&str> = Vec::new();
    path.push("message");
    assert(keys(path@) =~= seq!["message"@]);
    match value_string(value, path.as_slice()) {
        Some(s) => s,
        None => otherwise.to_owned(),
    }
}

/// Whether a reply reports success.
pub fn ensure_success(value: &serde_json::Value) -> (r: Result<(), QuarkError>)
    ensures
        unit_result(r) == reported(json_contents(*value)),
{
    let status = number_or(value, "status", 200);
    let code = number_or(value, "code", 0);
    if status != 200 || code != 0 {
        let code: i64 = if code != 0 {
            code
        } else {
            status
        };
        Err(QuarkError::Api { code, message: reply_message(value, "未知错误") })
    } else {
        Ok(())
    }
}

// ---------------------------------------------------------------------------
// Laws
// ---------------------------------------------------------------------------

/// Every key of the path leads on to something.
pub open spec fn leads_on(m: JsonModel, path: Seq<Seq<char>>) -> bool {
    forall|k: int| 0 < k <= path.len() ==> m.contains_key(#[trigger] path.take(k))
}

/// What stands at the end of a path.
pub open spec fn node_at(m: JsonModel, path: Seq<Seq<char>>) -> Option<JsonNode> {
    if leads_on(m, path) {
        Some(m[path].node)
    } else {
        None
    }
}

/// The text that stands at the end of a path: a string as it is, and a signed
/// 64-bit number in decimal.
pub open spec fn written_at(m: JsonModel, path: Seq<Seq<char>>) -> Option<Seq<char>> {
    match node_at(m, path) {
        Some(JsonNode::Text(s)) => Some(s),
        Some(JsonNode::Integer(i)) => if i64::MIN <= i <= i64::MAX {
            Some(signed_decimal(i))
        } else {
            None
        },
        _ => None,
    }
}

/// The signed 64-bit number that stands at the end of a path, as a number or as a
/// string.
pub open spec fn number_at(m: JsonModel, path: Seq<Seq<char>>) -> Option<int> {
    match node_at(m, path) {
        Some(JsonNode::Text(s)) => match as_i64(s) {
            Some(i) => Some(i as int),
            None => None,
        },
        Some(JsonNode::Integer(i)) => if i64::MIN <= i <= i64::MAX {
            Some(i)
        } else {
            None
        },
        _ => None,
    }
}

pub(crate) proof fn lemma_part_at(m: JsonModel, path: Seq<Seq<char>>)
    ensures
        part_at(m, path) is Some <==> leads_on(m, path),
        part_at(m, path) is Some ==> root(part_at(m, path)->0) == m[path].node,
        part_at(m, path) is Some ==> json_bytes(part_at(m, path)->0) == m[path].bytes,
        part_at(m, path) is Some ==> forall|q: Seq<Seq<char>>|
            q.len() > 0 ==> (part_at(m, path)->0.contains_key(q) <==> m.contains_key(
                #[trigger] (path + q),
            )),
    decreases path.len(),
{
    if path.len() == 0 {
        assert(path =~= Seq::empty());
        assert forall|q: Seq<Seq<char>>| #[trigger] (path + q) == q by {
            assert(path + q =~= q);
        }
    } else {
        let first = seq![path[0]];
        let rest = path.drop_first();
        let inner = member_of(m, path[0]);
        lemma_part_at(inner, rest);
        assert(path =~= first + rest);
        assert(path.take(1) =~= first);
        if m.contains_key(first) {
            assert(leads_on(m, path) <==> leads_on(inner, rest)) by {
                if leads_on(m, path) {
                    assert forall|k: int| 0 < k <= rest.len() implies inner.contains_key(
                        #[trigger] rest.take(k),
                    ) by {
                        assert(path.take(k + 1) =~= first + rest.take(k));
                    }
                }
                if leads_on(inner, rest) {
                    assert forall|k: int| 0 < k <= path.len() implies m.contains_key(
                        #[trigger] path.take(k),
                    ) by {
                        if k > 1 {
                            assert(inner.contains_key(rest.take(k - 1)));
                            assert(path.take(k) =~= first + rest.take(k - 1));
                        }
                    }
                }
            }
            if leads_on(inner, rest) {
                if rest.len() == 0 {
                    assert(rest =~= Seq::empty());
                    assert(first + rest =~= first);
                } else {
                    assert(rest.take(rest.len() as int) =~= rest);
                }
                assert(inner.contains_key(rest));
                assert(inner[rest] == m[path]);
                assert forall|q: Seq<Seq<char>>| q.len() > 0 implies (part_at(
                    m,
                    path,
                )->0.contains_key(q) <==> m.contains_key(#[trigger] (path + q))) by {
                    assert(path + q =~= first + (rest + q));
                    assert(inner.contains_key(rest + q) <==> m.contains_key(first + (rest + q)));
                }
            }
        }
    }
}

pub(crate) proof fn lemma_written_at(m: JsonModel, path: Seq<Seq<char>>)
    ensures
        text_at(m, path) == written_at(m, path),
        match (signed_at(m, path), number_at(m, path)) {
            (Some(a), Some(b)) => a == b,
            (None, None) => true,
            _ => false,
        },
{
    lemma_part_at(m, path);
}

/// A text is read where a string or a signed 64-bit number stands at the end of
/// the path, and nowhere else.
pub proof fn law_texts_are_read(value: serde_json::Value, path: &[&str], r: Option<String>)
    requires
        call_ensures(value_string, (&value, path), r),
    ensures
        match written_at(json_contents(value), keys(path@)) {
            Some(s) => r is Some && r->0@ == s,
            None => r is None,
        },
{
    lemma_written_at(json_contents(value), keys(path@));
}

/// A number is read where one stands at the end of the path, or a string that
/// writes one, and nowhere else.
pub proof fn law_numbers_are_read(value: serde_json::Value, path: &[&str], r: Option<i64>)
    requires
        call_ensures(value_i64, (&value, path), r),
    ensures
        match number_at(json_contents(value), keys(path@)) {
            Some(i) => r is Some && r->0 == i,
            None => r is None,
        },
{
    lemma_written_at(json_contents(value), keys(path@));
}

/// Of several places, the first that has a text is read, whatever the others hold.
pub proof fn law_first_text_is_read(
    value: serde_json::Value,
    paths: Vec<Vec<&str>>,
    r: Option<String>,
    k: int,
)
    requires
        call_ensures(first_string, (&value, &paths), r),
        0 <= k < paths@.len(),
        written_at(json_contents(value), keys(paths@[k]@)) is Some,
        forall|i: int|
            0 <= i < k ==> written_at(json_contents(value), keys((#[trigger] paths@[i])@)) is None,
    ensures
        r is Some,
        Some(r->0@) == written_at(json_contents(value), keys(paths@[k]@)),
{
    let m = json_contents(value);
    let all = key_paths(paths@);
    assert forall|i: int| 0 <= i < k implies written_at(m, #[trigger] all[i]) is None by {
        assert(all[i] == keys(paths@[i]@));
    }
    lemma_first_text(m, all, k);
}

pub(crate) proof fn lemma_first_text(m: JsonModel, paths: Seq<Seq<Seq<char>>>, k: int)
    requires
        0 <= k < paths.len(),
        written_at(m, paths[k]) is Some,
        forall|i: int| 0 <= i < k ==> written_at(m, #[trigger] paths[i]) is None,
    ensures
        first_text(m, paths) == written_at(m, paths[k]),
    decreases paths.len(),
{
    lemma_written_at(m, paths[0]);
    if k > 0 {
        assert(written_at(m, paths[0]) is None);
        let rest = paths.drop_first();
        assert forall|i: int| 0 <= i < k - 1 implies written_at(m, #[trigger] rest[i]) is None by {
            assert(rest[i] == paths[i + 1]);
        }
        lemma_first_text(m, rest, k - 1);
    }
}

pub(crate) proof fn lemma_no_text(m: JsonModel, paths: Seq<Seq<Seq<char>>>)
    requires
        forall|i: int| 0 <= i < paths.len() ==> written_at(m, #[trigger] paths[i]) is None,
    ensures
        first_text(m, paths) is None,
    decreases paths.len(),
{
    if paths.len() > 0 {
        lemma_written_at(m, paths[0]);
        assert(written_at(m, paths[0]) is None);
        let rest = paths.drop_first();
        assert forall|i: int| 0 <= i < rest.len() implies written_at(m, #[trigger] rest[i]) is None by {
            assert(rest[i] == paths[i + 1]);
        }
        lemma_no_text(m, rest);
    }
}

/// A number of a size field is read whether it stands there as a number or as a
/// string, and counts as zero where it is neither.
pub proof fn law_sizes_are_read(value: serde_json::Value, r: u64)
    requires
        call_ensures(number_or_string_u64, (&value,), r),
    ensures
        match json_contents(value)[Seq::empty()].node {
            JsonNode::Integer(i) => if 0 <= i <= u64::MAX {
                r == i
            } else {
                r == 0
            },
            JsonNode::Text(s) => match as_u64(s) {
                Some(n) => r == n,
                None => r == 0,
            },
            _ => r == 0,
        },
{
}

/// A number of a time field is read whether it stands there as a number or as a
/// string, and counts as zero where it is neither.
pub proof fn law_times_are_read(value: serde_json::Value, r: i64)
    requires
        call_ensures(number_or_string_i64, (&value,), r),
    ensures
        match json_contents(value)[Seq::empty()].node {
            JsonNode::Integer(i) => if i64::MIN <= i <= i64::MAX {
                r == i
            } else {
                r == 0
            },
            JsonNode::Text(s) => match as_i64(s) {
                Some(n) => r == n,
                None => r == 0,
            },
            _ => r == 0,
        },
{
}

/// Whether a reply gives this number under a key, or none at all.
pub open spec fn gives_or_omits(m: JsonModel, key: Seq<char>, n: int) -> bool {
    number_at(m, seq![key]) is None || number_at(m, seq![key]) == Some(n)
}

/// A reply is a success exactly where its status is 200 or left out and its code
/// is 0 or left out. Otherwise the error has the reply's code, or its status where
/// the code is 0 or left out, and its message where it has one.
pub proof fn law_success_is_recognised(value: serde_json::Value, r: Result<(), QuarkError>)
    requires
        call_ensures(ensure_success, (&value,), r),
    ensures
        ({
            let m = json_contents(value);
            &&& r is Ok <==> gives_or_omits(m, "status"@, 200) && gives_or_omits(m, "code"@, 0)
            &&& r is Err ==> {
                &&& r->Err_0@ matches ErrorView::Api(code, message)
                &&& !gives_or_omits(m, "code"@, 0) ==> Some(code) == number_at(m, seq!["code"@])
                &&& gives_or_omits(m, "code"@, 0) ==> Some(code) == number_at(m, seq!["status"@])
                &&& written_at(m, seq!["message"@]) matches Some(s) ==> message == s
            }
        }),
{
    let m = json_contents(value);
    lemma_written_at(m, seq!["status"@]);
    lemma_written_at(m, seq!["code"@]);
    lemma_written_at(m, seq!["message"@]);
}

/// A required text is read where it stands, and its absence names the key.
pub proof fn law_required_texts_are_read(
    value: serde_json::Value,
    key: &'static str,
    r: Result<String, QuarkError>,
)
    requires
        call_ensures(json_string, (&value, key), r),
    ensures
        match written_at(json_contents(value), seq![key@]) {
            Some(s) => r is Ok && r->Ok_0@ == s,
            None => r is Err && r->Err_0@ == ErrorView::Malformed(key@),
        },
{
    lemma_written_at(json_contents(value), seq![key@]);
}

/// A flag is set exactly where `true` stands under its key.
pub proof fn law_flags_are_read(value: serde_json::Value, key: &str, r: bool)
    requires
        call_ensures(flag_at, (&value, key), r),
    ensures
        r <==> node_at(json_contents(value), seq![key@]) == Some(JsonNode::Truth(true)),
{
    let path = seq![key@];
    lemma_part_at(json_contents(value), path);
    assert(path.drop_first() =~= Seq::empty());
    assert(path.take(1) =~= path);
}

} // verus!
