//! Logging in with a QR code: get a token, show it, wait until it was scanned,
//! and take over the session.

use super::error::{ErrorView, QuarkError};
use super::request::{add_pair, pairs, Body, BodyView, Method, Request, RequestView};
use super::wire::{percent_encode, percent_text};
use crate::json::{
    first_string, first_text, json_contents, key_paths, keys, reply_message, signed_at, text_at,
    value_i64, value_string, JsonModel,
};
use crate::text::{
    char_lists, concat2, concat3, join, joined, pieces, same_chars, split, texts, trim_chars, trimmed,
};
use vstd::prelude::*;
use vstd::utf8::encode_utf8;

verus! {

// ---------------------------------------------------------------------------
// Types
// ---------------------------------------------------------------------------

/// Who the session belongs to.
#[derive(Debug, PartialEq, Eq)]
pub struct AccountInfo {
    pub nickname: String,
    pub user_id: String,
    pub avatar_url: String,
}

/// An [`AccountInfo`] with its texts as sequences of characters.
pub struct AccountView {
    pub nickname: Seq<char>,
    pub user_id: Seq<char>,
    pub avatar_url: Seq<char>,
}

impl View for AccountInfo {
    type V = AccountView;

    open spec fn view(&self) -> AccountView {
        AccountView {
            nickname: self.nickname@,
            user_id: self.user_id@,
            avatar_url: self.avatar_url@,
        }
    }
}

impl Clone for AccountInfo {
    fn clone(&self) -> (r: AccountInfo)
        ensures
            r@ == self@,
    {
        AccountInfo {
            nickname: self.nickname.clone(),
            user_id: self.user_id.clone(),
            avatar_url: self.avatar_url.clone(),
        }
    }
}

impl Default for AccountInfo {
    fn default() -> (r: AccountInfo)
        ensures
            r.nickname@.len() == 0,
            r.user_id@.len() == 0,
            r.avatar_url@.len() == 0,
    {
        AccountInfo {
            nickname: String::new(),
            user_id: String::new(),
            avatar_url: String::new(),
        }
    }
}

/// A QR code and what it stands for: a square of modules, row by row, a dark one
/// being `true`.
#[derive(Debug)]
pub struct QrCodeData {
    pub token: String,
    pub url: String,
    pub width: usize,
    pub modules: Vec<bool>,
}

impl QrCodeData {
    /// The modules make a square of a size that QR codes have.
    pub open spec fn wf(&self) -> bool {
        21 <= self.width <= 177 && self.modules@.len() == self.width * self.width
    }
}

impl Clone for QrCodeData {
    fn clone(&self) -> (r: QrCodeData)
        ensures
            r.token@ == self.token@,
            r.url@ == self.url@,
            r.width == self.width,
            r.modules@ == self.modules@,
    {
        let modules = self.modules.clone();
        assert(modules@ =~= self.modules@);
        QrCodeData { token: self.token.clone(), url: self.url.clone(), width: self.width, modules }
    }
}

/// A session and who it belongs to.
#[derive(Debug)]
pub struct QrLoginResult {
    pub cookie: String,
    pub account: AccountInfo,
}

impl Clone for QrLoginResult {
    fn clone(&self) -> (r: QrLoginResult)
        ensures
            r.cookie@ == self.cookie@,
            r.account@ == self.account@,
    {
        QrLoginResult { cookie: self.cookie.clone(), account: self.account.clone() }
    }
}

/// Logging in with a QR code.
pub struct QuarkQrLogin;

// ---------------------------------------------------------------------------
// The QR code
// ---------------------------------------------------------------------------

/// The QR code of some bytes, as its width and its modules row by row, or the
/// message of the error.
pub uninterp spec fn qr_symbol(data: Seq<u8>) -> Result<(nat, Seq<bool>), Seq<char>>;

/// `qrcode::QrCode::new` with `width` and `to_colors` of its result. The symbol
/// is one of versions 1 to 40, so between 21 and 177 modules wide, and has a
/// colour for each place of its square.
#[verifier::external_body]
fn qr_encode(data: &[u8]) -> (r: Result<(usize, Vec<bool>), String>)
    ensures
        match r {
            Ok(symbol) => {
                &&& qr_symbol(data@) == Ok::<(nat, Seq<bool>), Seq<char>>(
                    (symbol.0 as nat, symbol.1@),
                )
                &&& 21 <= symbol.0 <= 177
                &&& symbol.1@.len() == symbol.0 * symbol.0
            },
            Err(e) => qr_symbol(data@) == Err::<(nat, Seq<bool>), Seq<char>>(e@),
        },
{
    match qrcode::QrCode::new(data) {
        Ok(code) => {
            let dark = |color| match color {
                qrcode::types::Color::Light => false,
                qrcode::types::Color::Dark => true,
            };
            Ok((code.width(), code.to_colors().into_iter().map(dark).collect()))
        },
        Err(e) => Err(e.to_string()),
    }
}

/// The address that the QR code of a token leads to.
pub open spec fn qr_address(token: Seq<char>) -> Seq<char> {
    "https://su.quark.cn/4_eMHBJ?token="@ + percent_text(token)
        + "&client_id=532&ssb=weblogin&uc_param_str=&uc_biz_str=S%3Acustom%7COPT%3ASAREA%400%7COPT%3AIMMERSIVE%401%7COPT%3ABACK_BTN_STYLE%400"@
}

/// The request for a token.
pub open spec fn token_request(request_id: Seq<char>) -> RequestView {
    RequestView {
        method: Method::Get,
        url: "https://uop.quark.cn/cas/ajax/getTokenForQrcodeLogin"@,
        query: seq![("client_id"@, "532"@), ("v"@, "1.2"@), ("request_id"@, request_id)],
        headers: Seq::empty(),
        body: BodyView::Empty,
    }
}

/// The status of a reply of the login service, 0 if it has none.
pub open spec fn login_status(m: JsonModel) -> i64 {
    match signed_at(m, seq!["status"@]) {
        Some(n) => n,
        None => 0,
    }
}

/// The message of a reply, or a text that stands in for it.
pub open spec fn message_or(m: JsonModel, otherwise: Seq<char>) -> Seq<char> {
    match text_at(m, seq!["message"@]) {
        Some(s) => s,
        None => otherwise,
    }
}

/// The token that a reply gives out.
pub open spec fn token_in(m: JsonModel) -> Result<Seq<char>, ErrorView> {
    if login_status(m) != 2000000 {
        Err(ErrorView::Login("获取二维码失败："@ + message_or(m, "未知错误"@)))
    } else {
        match text_at(m, seq!["data"@, "members"@, "token"@]) {
            Some(token) => Ok(token),
            None => Err(ErrorView::Malformed("data.members.token"@)),
        }
    }
}

fn status_of(reply: &serde_json::Value) -> (r: i64)
    ensures
        r == login_status(json_contents(*reply)),
{
    let path: Vec<&str> = vec!["status"];
    assert(keys(path@) =~= seq!["status"@]);
    match value_i64(reply, path.as_slice()) {
        Some(n) => n,
        None => 0,
    }
}

impl QuarkQrLogin {
    /// The request for a token.
    pub fn token_request(request_id: &str) -> (r: Request)
        ensures
            r@ == token_request(request_id@),
    {
        let mut query: Vec<(String, String)> = Vec::new();
        assert(pairs(query@) =~= Seq::empty());
        add_pair(&mut query, "client_id", "532");
        add_pair(&mut query, "v", "1.2");
        add_pair(&mut query, "request_id", request_id);
        let headers: Vec<(String, String)> = Vec::new();
        proof {
            assert(pairs(query@) =~= token_request(request_id@).query);
            assert(pairs(headers@) =~= Seq::empty());
        }
        Request {
            method: Method::Get,
            url: "https://uop.quark.cn/cas/ajax/getTokenForQrcodeLogin".to_owned(),
            query,
            headers,
            body: Body::Empty,
        }
    }

    /// The QR code of a symbol that was made for a token's address.
    pub fn show(token: String, url: String, symbol: Result<(usize, Vec<bool>), String>) -> (r: Result<
        QrCodeData,
        QuarkError,
    >)
        ensures
            match symbol {
                Ok(s) => r matches Ok(qr) && {
                    &&& qr.token == token
                    &&& qr.url == url
                    &&& qr.width == s.0
                    &&& qr.modules == s.1
                },
                Err(e) => r matches Err(x) && x@ == ErrorView::Login("生成二维码失败："@ + e@),
            },
    {
        match symbol {
            Ok((width, modules)) => Ok(QrCodeData { token, url, width, modules }),
            Err(e) => Err(QuarkError::Login(concat2("生成二维码失败：", e.as_str()))),
        }
    }

    /// The QR code for the token that a reply gives out.
    pub fn get_qr_code(reply: &serde_json::Value) -> (r: Result<QrCodeData, QuarkError>)
        ensures
            match r {
                Ok(qr) => {
                    &&& qr.wf()
                    &&& token_in(json_contents(*reply)) == Ok::<Seq<char>, ErrorView>(qr.token@)
                    &&& qr.url@ == qr_address(qr.token@)
                    &&& qr_symbol(encode_utf8(qr.url@)) == Ok::<(nat, Seq<bool>), Seq<char>>(
                        (qr.width as nat, qr.modules@),
                    )
                },
                Err(e) => match token_in(json_contents(*reply)) {
                    Err(x) => e@ == x,
                    Ok(token) => qr_symbol(encode_utf8(qr_address(token))) matches Err(text) && e@
                        == ErrorView::Login("生成二维码失败："@ + text),
                },
            },
    {
        if status_of(reply) != 2000000 {
            let message = reply_message(reply, "未知错误");
            return Err(QuarkError::Login(concat2("获取二维码失败：", message.as_str())));
        }
        let path: Vec<&str> = vec!["data", "members", "token"];
        assert(keys(path@) =~= seq!["data"@, "members"@, "token"@]);
        let token = match value_string(reply, path.as_slice()) {
            Some(token) => token,
            None => {
                return Err(QuarkError::Malformed("data.members.token"));
            },
        };
        let encoded = percent_encode(token.as_str());
        let url = concat3(
            "https://su.quark.cn/4_eMHBJ?token=",
            encoded.as_str(),
            "&client_id=532&ssb=weblogin&uc_param_str=&uc_biz_str=S%3Acustom%7COPT%3ASAREA%400%7COPT%3AIMMERSIVE%401%7COPT%3ABACK_BTN_STYLE%400",
        );
        let symbol = qr_encode(url.as_str().as_bytes());
        QuarkQrLogin::show(token, url, symbol)
    }
}

// ---------------------------------------------------------------------------
// Waiting for the scan
// ---------------------------------------------------------------------------

/// The request whether a token was scanned.
pub open spec fn poll_request(token: Seq<char>, request_id: Seq<char>) -> RequestView {
    RequestView {
        method: Method::Get,
        url: "https://uop.quark.cn/cas/ajax/getServiceTicketByQrcodeToken"@,
        query: seq![
            ("client_id"@, "532"@),
            ("v"@, "1.2"@),
            ("token"@, token),
            ("request_id"@, request_id),
        ],
        headers: Seq::empty(),
        body: BodyView::Empty,
    }
}

/// What happens while the user is expected to scan.
pub enum LoginEvent {
    /// It is time to look: whether the time is up, and whether the user gave up.
    Turn { expired: bool, cancelled: bool },
    /// The reply to the last poll.
    Reply(serde_json::Value),
}

/// What to do next while the user is expected to scan.
pub enum LoginAction {
    /// Ask whether the token was scanned.
    Poll,
    /// Wait that many seconds before the next turn.
    Sleep(u64),
    /// Take over the session with this ticket.
    Finish(String),
    /// Give up.
    Fail(QuarkError),
}

/// A [`LoginAction`] with its texts as sequences of characters.
pub enum LoginActionView {
    Poll,
    Sleep(nat),
    Finish(Seq<char>),
    Fail(ErrorView),
}

impl View for LoginAction {
    type V = LoginActionView;

    open spec fn view(&self) -> LoginActionView {
        match *self {
            LoginAction::Poll => LoginActionView::Poll,
            LoginAction::Sleep(s) => LoginActionView::Sleep(s as nat),
            LoginAction::Finish(ticket) => LoginActionView::Finish(ticket@),
            LoginAction::Fail(e) => LoginActionView::Fail(e@),
        }
    }
}

/// The ticket of a reply to a token that was scanned.
pub open spec fn ticket_in(m: JsonModel) -> Option<Seq<char>> {
    if login_status(m) == 2000000 {
        text_at(m, seq!["data"@, "members"@, "service_ticket"@])
    } else {
        None
    }
}

/// What a reply to a poll leads to.
pub open spec fn after_reply(m: JsonModel) -> LoginActionView {
    match ticket_in(m) {
        Some(ticket) => LoginActionView::Finish(ticket),
        None => if 50004002 <= login_status(m) <= 50004004 {
            LoginActionView::Fail(ErrorView::Login(message_or(m, "二维码已失效"@)))
        } else {
            LoginActionView::Sleep(2)
        },
    }
}

/// What an event leads to. The time being up counts before the user's giving up.
pub open spec fn login_reaction(event: LoginEvent) -> LoginActionView {
    match event {
        LoginEvent::Turn { expired, cancelled } => if expired {
            LoginActionView::Fail(ErrorView::Login("二维码登录超时，请重新扫码"@))
        } else if cancelled {
            LoginActionView::Fail(ErrorView::Login("登录已取消"@))
        } else {
            LoginActionView::Poll
        },
        LoginEvent::Reply(reply) => after_reply(json_contents(reply)),
    }
}

impl QuarkQrLogin {
    /// The request whether a token was scanned.
    pub fn poll_request(token: &str, request_id: &str) -> (r: Request)
        ensures
            r@ == poll_request(token@, request_id@),
    {
        let mut query: Vec<(String, String)> = Vec::new();
        assert(pairs(query@) =~= Seq::empty());
        add_pair(&mut query, "client_id", "532");
        add_pair(&mut query, "v", "1.2");
        add_pair(&mut query, "token", token);
        add_pair(&mut query, "request_id", request_id);
        let headers: Vec<(String, String)> = Vec::new();
        proof {
            assert(pairs(query@) =~= poll_request(token@, request_id@).query);
            assert(pairs(headers@) =~= Seq::empty());
        }
        Request {
            method: Method::Get,
            url: "https://uop.quark.cn/cas/ajax/getServiceTicketByQrcodeToken".to_owned(),
            query,
            headers,
            body: Body::Empty,
        }
    }

    /// What to do next while the user is expected to scan.
    pub fn wait_for_login(event: LoginEvent) -> (r: LoginAction)
        ensures
            r@ == login_reaction(event),
    {
        match event {
            LoginEvent::Turn { expired, cancelled } => {
                if expired {
                    LoginAction::Fail(
                        QuarkError::Login("二维码登录超时，请重新扫码".to_owned()),
                    )
                } else if cancelled {
                    LoginAction::Fail(QuarkError::Login("登录已取消".to_owned()))
                } else {
                    LoginAction::Poll
                }
            },
            LoginEvent::Reply(reply) => {
                let status = status_of(&reply);
                if status == 2000000 {
                    let path: Vec<&str> = vec!["data", "members", "service_ticket"];
                    assert(keys(path@) =~= seq!["data"@, "members"@, "service_ticket"@]);
                    if let Some(ticket) = value_string(&reply, path.as_slice()) {
                        return LoginAction::Finish(ticket);
                    }
                }
                if 50004002 <= status && status <= 50004004 {
                    return LoginAction::Fail(
                        QuarkError::Login(reply_message(&reply, "二维码已失效")),
                    );
                }
                LoginAction::Sleep(2)
            },
        }
    }
}

// ---------------------------------------------------------------------------
// Taking over the session
// ---------------------------------------------------------------------------

/// The request for the account that a ticket belongs to.
pub open spec fn account_request(ticket: Seq<char>) -> RequestView {
    RequestView {
        method: Method::Get,
        url: "https://pan.quark.cn/account/info"@,
        query: seq![("st"@, ticket), ("lw"@, "scan"@)],
        headers: Seq::empty(),
        body: BodyView::Empty,
    }
}

pub open spec fn nickname_paths() -> Seq<Seq<Seq<char>>> {
    seq![seq!["data"@, "nickname"@], seq!["data"@, "user_info"@, "nickname"@]]
}

pub open spec fn user_id_paths() -> Seq<Seq<Seq<char>>> {
    seq![
        seq!["data"@, "user_id"@],
        seq!["data"@, "userId"@],
        seq!["data"@, "uid"@],
        seq!["data"@, "id"@],
        seq!["data"@, "user_info"@, "user_id"@],
        seq!["data"@, "user_info"@, "uid"@],
    ]
}

pub open spec fn avatar_paths() -> Seq<Seq<Seq<char>>> {
    seq![
        seq!["data"@, "avatar"@],
        seq!["data"@, "avatar_url"@],
        seq!["data"@, "avatarUrl"@],
        seq!["data"@, "user_info"@, "avatar"@],
        seq!["data"@, "user_info"@, "avatar_url"@],
    ]
}

pub open spec fn text_or_empty(s: Option<Seq<char>>) -> Seq<char> {
    match s {
        Some(t) => t,
        None => Seq::empty(),
    }
}

/// The account that a reply describes. Replies differ in where they put it.
pub open spec fn account_in(m: JsonModel) -> AccountView {
    AccountView {
        nickname: text_or_empty(first_text(m, nickname_paths())),
        user_id: text_or_empty(first_text(m, user_id_paths())),
        avatar_url: text_or_empty(first_text(m, avatar_paths())),
    }
}

fn text_in(reply: &serde_json::Value, paths: &Vec<Vec<&str>>) -> (r: String)
    ensures
        r@ == text_or_empty(first_text(json_contents(*reply), key_paths(paths@))),
{
    match first_string(reply, paths) {
        Some(s) => s,
        None => String::new(),
    }
}

fn account_of(reply: &serde_json::Value) -> (r: AccountInfo)
    ensures
        r@ == account_in(json_contents(*reply)),
{
    let a: Vec<&str> = vec!["data", "nickname"];
    let b: Vec<&str> = vec!["data", "user_info", "nickname"];
    assert(keys(a@) =~= nickname_paths()[0] && keys(b@) =~= nickname_paths()[1]);
    let paths: Vec<Vec<&str>> = vec![a, b];
    assert(key_paths(paths@) =~= nickname_paths());
    let nickname = text_in(reply, &paths);

    let a: Vec<&str> = vec!["data", "user_id"];
    let b: Vec<&str> = vec!["data", "userId"];
    let c: Vec<&str> = vec!["data", "uid"];
    let d: Vec<&str> = vec!["data", "id"];
    let e: Vec<&str> = vec!["data", "user_info", "user_id"];
    let f: Vec<&str> = vec!["data", "user_info", "uid"];
    assert(keys(a@) =~= user_id_paths()[0] && keys(b@) =~= user_id_paths()[1]);
    assert(keys(c@) =~= user_id_paths()[2] && keys(d@) =~= user_id_paths()[3]);
    assert(keys(e@) =~= user_id_paths()[4] && keys(f@) =~= user_id_paths()[5]);
    let paths: Vec<Vec<&str>> = vec![a, b, c, d, e, f];
    assert(key_paths(paths@) =~= user_id_paths());
    let user_id = text_in(reply, &paths);

    let a: Vec<&str> = vec!["data", "avatar"];
    let b: Vec<&str> = vec!["data", "avatar_url"];
    let c: Vec<&str> = vec!["data", "avatarUrl"];
    let d: Vec<&str> = vec!["data", "user_info", "avatar"];
    let e: Vec<&str> = vec!["data", "user_info", "avatar_url"];
    assert(keys(a@) =~= avatar_paths()[0] && keys(b@) =~= avatar_paths()[1]);
    assert(keys(c@) =~= avatar_paths()[2] && keys(d@) =~= avatar_paths()[3]);
    assert(keys(e@) =~= avatar_paths()[4]);
    let paths: Vec<Vec<&str>> = vec![a, b, c, d, e];
    assert(key_paths(paths@) =~= avatar_paths());
    let avatar_url = text_in(reply, &paths);

    AccountInfo { nickname, user_id, avatar_url }
}

// ---------------------------------------------------------------------------
// The session's cookie
// ---------------------------------------------------------------------------

/// The pieces between the semicolons of all the values.
pub open spec fn cookie_pieces(values: Seq<Seq<char>>) -> Seq<Seq<char>>
    decreases values.len(),
{
    if values.len() == 0 {
        Seq::empty()
    } else {
        cookie_pieces(values.drop_last()) + pieces(values.last(), ';')
    }
}

/// The pieces without white space around them, each where it occurs first, and
/// none that is empty.
pub open spec fn distinct_parts(all: Seq<Seq<char>>) -> Seq<Seq<char>>
    decreases all.len(),
{
    if all.len() == 0 {
        Seq::empty()
    } else {
        let before = distinct_parts(all.drop_last());
        let part = trimmed(all.last());
        if part.len() == 0 || before.contains(part) {
            before
        } else {
            before.push(part)
        }
    }
}

/// The cookie of a session whose cookies several hosts have set.
pub open spec fn session_cookie(values: Seq<Seq<char>>) -> Seq<char> {
    joined(distinct_parts(cookie_pieces(values)), "; "@)
}

/// The addresses whose cookies make up the session's, in this order.
pub open spec fn cookie_hosts() -> Seq<Seq<char>> {
    seq![
        "https://pan.quark.cn/"@,
        "https://drive.quark.cn/"@,
        "https://drive-pc.quark.cn/"@,
        "https://uop.quark.cn/"@,
    ]
}

/// The addresses whose cookies make up the session's, in this order.
pub fn cookie_addresses() -> (r: Vec<String>)
    ensures
        texts(r@) == cookie_hosts(),
{
    let r = vec![
        "https://pan.quark.cn/".to_owned(),
        "https://drive.quark.cn/".to_owned(),
        "https://drive-pc.quark.cn/".to_owned(),
        "https://uop.quark.cn/".to_owned(),
    ];
    assert(texts(r@) =~= cookie_hosts());
    r
}

fn known(parts: &Vec<Vec<char>>, part: &Vec<char>) -> (r: bool)
    ensures
        r == char_lists(parts@).contains(part@),
{
    let mut i: usize = 0;
    while i < parts.len()
        invariant
            i <= parts@.len(),
            forall|j: int| 0 <= j < i ==> char_lists(parts@)[j] != part@,
        decreases parts@.len() - i,
    {
        if same_chars(&parts[i], part) {
            assert(char_lists(parts@)[i as int] == part@);
            return true;
        }
        i += 1;
    }
    false
}

/// The cookie made of what several hosts have set.
pub fn merge_cookies(values: &Vec<String>) -> (r: String)
    ensures
        r@ == session_cookie(texts(values@)),
{
    let ghost all = texts(values@);
    let mut parts: Vec<Vec<char>> = Vec::new();
    let mut i: usize = 0;
    proof {
        assert(all.take(0) =~= Seq::empty());
        assert(char_lists(parts@) =~= Seq::empty());
    }
    while i < values.len()
        invariant
            i <= values@.len(),
            all == texts(values@),
            char_lists(parts@) == distinct_parts(cookie_pieces(all.take(i as int))),
        decreases values@.len() - i,
    {
        let split_value = split(values[i].as_str(), ';');
        let ghost before = cookie_pieces(all.take(i as int));
        let ghost new = char_lists(split_value@);
        let mut j: usize = 0;
        assert(before + new.take(0) =~= before);
        while j < split_value.len()
            invariant
                j <= split_value@.len(),
                new == char_lists(split_value@),
                char_lists(parts@) == distinct_parts(before + new.take(j as int)),
            decreases split_value@.len() - j,
        {
            let part = trim_chars(&split_value[j]);
            proof {
                let step = before + new.take(j + 1);
                assert(step.drop_last() =~= before + new.take(j as int));
                assert(step.last() == split_value@[j as int]@);
            }
            if part.len() > 0 && !known(&parts, &part) {
                let ghost old_parts = char_lists(parts@);
                parts.push(part);
                assert(char_lists(parts@) =~= old_parts.push(part@));
            }
            j += 1;
        }
        proof {
            assert(new.take(new.len() as int) =~= new);
            assert(all.take(i + 1).drop_last() =~= all.take(i as int));
            assert(all.take(i + 1).last() == values@[i as int]@);
        }
        i += 1;
    }
    assert(all.take(all.len() as int) =~= all);
    join(&parts, "; ")
}

/// The parts of a session's cookie: none is empty, none has white space around
/// it, none occurs twice, and nothing that a host has set is missing.
pub proof fn law_distinct_parts(all: Seq<Seq<char>>)
    ensures
        distinct_parts(all).no_duplicates(),
        forall|i: int|
            0 <= i < distinct_parts(all).len() ==> {
                let part = #[trigger] distinct_parts(all)[i];
                part.len() > 0 && exists|k: int| 0 <= k < all.len() && part == trimmed(#[trigger] all[k])
            },
        forall|k: int|
            0 <= k < all.len() && trimmed(#[trigger] all[k]).len() > 0 ==> distinct_parts(
                all,
            ).contains(trimmed(all[k])),
    decreases all.len(),
{
    if all.len() > 0 {
        let init = all.drop_last();
        law_distinct_parts(init);
        let before = distinct_parts(init);
        let out = distinct_parts(all);
        let part = trimmed(all.last());
        assert forall|i: int| 0 <= i < out.len() implies {
            let p = #[trigger] out[i];
            p.len() > 0 && exists|k: int| 0 <= k < all.len() && p == trimmed(#[trigger] all[k])
        } by {
            if i < before.len() {
                assert(out[i] == before[i]);
                let k = choose|k: int| 0 <= k < init.len() && before[i] == trimmed(#[trigger] init[k]);
                assert(all[k] == init[k]);
            } else {
                assert(out[i] == trimmed(all[all.len() - 1]));
            }
        }
        assert forall|k: int| 0 <= k < all.len() && trimmed(#[trigger] all[k]).len() > 0 implies out.contains(
            trimmed(all[k]),
        ) by {
            if k < init.len() {
                assert(init[k] == all[k]);
                let at = choose|at: int| 0 <= at < before.len() && before[at] == trimmed(init[k]);
                assert(out[at] == before[at]);
            } else if !before.contains(part) {
                assert(out[before.len() as int] == part);
            }
        }
    }
}

impl QuarkQrLogin {
    /// The request for the account that a ticket belongs to.
    pub fn account_request(ticket: &str) -> (r: Request)
        ensures
            r@ == account_request(ticket@),
    {
        let mut query: Vec<(String, String)> = Vec::new();
        assert(pairs(query@) =~= Seq::empty());
        add_pair(&mut query, "st", ticket);
        add_pair(&mut query, "lw", "scan");
        let headers: Vec<(String, String)> = Vec::new();
        proof {
            assert(pairs(query@) =~= account_request(ticket@).query);
            assert(pairs(headers@) =~= Seq::empty());
        }
        Request {
            method: Method::Get,
            url: "https://pan.quark.cn/account/info".to_owned(),
            query,
            headers,
            body: Body::Empty,
        }
    }

    /// The session, from the reply that names the account and from the cookies
    /// that the hosts of [`cookie_addresses`] have set, in their order. There must be a nickname or an id, and a cookie.
    pub fn finish_login(reply: &serde_json::Value, cookies: &Vec<String>) -> (r: Result<
        QrLoginResult,
        QuarkError,
    >)
        ensures
            ({
                let account = account_in(json_contents(*reply));
                let cookie = session_cookie(texts(cookies@));
                if account.nickname.len() == 0 && account.user_id.len() == 0 {
                    r matches Err(e) && e@ == ErrorView::Malformed("data.nickname"@)
                } else if cookie.len() == 0 {
                    r matches Err(e) && e@ == ErrorView::Malformed("登录 Cookie"@)
                } else {
                    r matches Ok(login) && login.account@ == account && login.cookie@ == cookie
                }
            }),
    {
        let account = account_of(reply);
        if account.nickname.as_str().is_empty() && account.user_id.as_str().is_empty() {
            return Err(QuarkError::Malformed("data.nickname"));
        }
        let cookie = merge_cookies(cookies);
        if cookie.as_str().is_empty() {
            return Err(QuarkError::Malformed("登录 Cookie"));
        }
        Ok(QrLoginResult { cookie, account })
    }
}

} // verus!
