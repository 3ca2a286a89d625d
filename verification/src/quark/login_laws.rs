//! What logging in says to the server, and what it takes from the replies.

use super::error::{ErrorView, QuarkError};
use super::laws::{lemma_once, once};
use super::login::{
    avatar_paths, cookie_pieces, distinct_parts, law_distinct_parts, merge_cookies, nickname_paths,
    qr_symbol, session_cookie, user_id_paths, LoginAction, LoginEvent, QrCodeData, QrLoginResult,
    QuarkQrLogin,
};
use super::request::{Method, Request, RequestView};
use super::wire::percent_text;
use crate::json::{
    first_text, json_contents, lemma_written_at, number_at, written_at, JsonModel,
};
use crate::text::{
    is_blank, is_space, joined, law_joined_parts_split_back, law_joining_in_groups,
    law_pieces_join_back, lemma_trimmed, pieces, texts, trimmed,
};
use vstd::prelude::*;
use vstd::utf8::encode_utf8;

verus! {

// ---------------------------------------------------------------------------
// Requests
// ---------------------------------------------------------------------------

/// The request only asks, at this address, and carries nothing but its query.
pub open spec fn only_asks(r: RequestView, url: Seq<char>) -> bool {
    r.method == Method::Get && r.url == url && r.body is Empty && r.headers.len() == 0
}

/// A token is asked for under the request's own id.
pub proof fn law_token_is_asked_for(request_id: &str, r: Request)
    requires
        call_ensures(QuarkQrLogin::token_request, (request_id,), r),
    ensures
        only_asks(r@, "https://uop.quark.cn/cas/ajax/getTokenForQrcodeLogin"@),
        once(r@.query, "client_id"@, "532"@),
        once(r@.query, "v"@, "1.2"@),
        once(r@.query, "request_id"@, request_id@),
        r@.query.len() == 3,
{
    reveal_strlit("client_id");
    reveal_strlit("v");
    reveal_strlit("request_id");
    assert("client_id"@.len() != "v"@.len());
    assert("client_id"@.len() != "request_id"@.len());
    assert("v"@.len() != "request_id"@.len());
    let list = r@.query;
    assert(list.len() == 3);
    assert(list[0].0 == "client_id"@);
    assert(list[1].0 == "v"@);
    assert(list[2].0 == "request_id"@);
    lemma_once(list, 0);
    lemma_once(list, 1);
    lemma_once(list, 2);
}

/// The server is asked after this token, under the request's own id.
pub proof fn law_poll_names_its_token(token: &str, request_id: &str, r: Request)
    requires
        call_ensures(QuarkQrLogin::poll_request, (token, request_id), r),
    ensures
        only_asks(r@, "https://uop.quark.cn/cas/ajax/getServiceTicketByQrcodeToken"@),
        once(r@.query, "client_id"@, "532"@),
        once(r@.query, "v"@, "1.2"@),
        once(r@.query, "token"@, token@),
        once(r@.query, "request_id"@, request_id@),
        r@.query.len() == 4,
{
    reveal_strlit("client_id");
    reveal_strlit("v");
    reveal_strlit("token");
    reveal_strlit("request_id");
    let list = r@.query;
    assert(list.len() == 4);
    assert(list[0].0 == "client_id"@);
    assert(list[1].0 == "v"@);
    assert(list[2].0 == "token"@);
    assert(list[3].0 == "request_id"@);
    lemma_once(list, 0);
    lemma_once(list, 1);
    lemma_once(list, 2);
    lemma_once(list, 3);
}

/// The account is asked for with the ticket that the scan has brought.
pub proof fn law_account_is_asked_for(ticket: &str, r: Request)
    requires
        call_ensures(QuarkQrLogin::account_request, (ticket,), r),
    ensures
        only_asks(r@, "https://pan.quark.cn/account/info"@),
        once(r@.query, "st"@, ticket@),
        once(r@.query, "lw"@, "scan"@),
        r@.query.len() == 2,
{
    reveal_strlit("st");
    reveal_strlit("lw");
    assert("st"@[0] != "lw"@[0]);
    let list = r@.query;
    assert(list.len() == 2);
    assert(list[0].0 == "st"@);
    assert(list[1].0 == "lw"@);
    lemma_once(list, 0);
    lemma_once(list, 1);
}

// ---------------------------------------------------------------------------
// Replies
// ---------------------------------------------------------------------------

/// A reply with status 2000000 and a token leads to the code of that token: its
/// address has the token in it, and the symbol is that of the address. Without
/// the status or the token there is no code.
pub proof fn law_token_becomes_its_code(
    reply: serde_json::Value,
    r: Result<QrCodeData, QuarkError>,
)
    requires
        call_ensures(QuarkQrLogin::get_qr_code, (&reply,), r),
    ensures
        ({
            let m = json_contents(reply);
            let good = number_at(m, seq!["status"@]) == Some(2000000int);
            let token = written_at(m, seq!["data"@, "members"@, "token"@]);
            &&& !good ==> r is Err && r->Err_0@ is Login
            &&& !good && written_at(m, seq!["message"@]) is Some ==> r->Err_0@ == ErrorView::Login(
                "获取二维码失败："@ + written_at(m, seq!["message"@])->0,
            )
            &&& good && token is None ==> r is Err && r->Err_0@ == ErrorView::Malformed(
                "data.members.token"@,
            )
            &&& good && token is Some ==> {
                let address = "https://su.quark.cn/4_eMHBJ?token="@ + percent_text(token->0)
                    + "&client_id=532&ssb=weblogin&uc_param_str=&uc_biz_str=S%3Acustom%7COPT%3ASAREA%400%7COPT%3AIMMERSIVE%401%7COPT%3ABACK_BTN_STYLE%400"@;
                match qr_symbol(encode_utf8(address)) {
                    Ok(symbol) => {
                        &&& r is Ok
                        &&& r->Ok_0.token@ == token->0
                        &&& r->Ok_0.url@ == address
                        &&& r->Ok_0.width == symbol.0
                        &&& r->Ok_0.modules@ == symbol.1
                        &&& r->Ok_0.modules@.len() == r->Ok_0.width * r->Ok_0.width
                    },
                    Err(text) => r is Err && r->Err_0@ == ErrorView::Login(
                        "生成二维码失败："@ + text,
                    ),
                }
            }
        }),
{
    let m = json_contents(reply);
    lemma_written_at(m, seq!["status"@]);
    lemma_written_at(m, seq!["message"@]);
    lemma_written_at(m, seq!["data"@, "members"@, "token"@]);
}

/// Waiting ends with the ticket that a reply of status 2000000 brings, and with
/// no other. It fails where the server says that the code is used up, which it
/// says with a status from 50004002 to 50004004, and otherwise it goes on after
/// two seconds.
pub proof fn law_waiting_goes_by_the_reply(reply: serde_json::Value, action: LoginAction)
    requires
        call_ensures(QuarkQrLogin::wait_for_login, (LoginEvent::Reply(reply),), action),
    ensures
        ({
            let m = json_contents(reply);
            let status = number_at(m, seq!["status"@]);
            let ticket = written_at(m, seq!["data"@, "members"@, "service_ticket"@]);
            let scanned = status == Some(2000000int) && ticket is Some;
            let void = status is Some && 50004002 <= status->0 <= 50004004;
            &&& scanned ==> action is Finish && action->Finish_0@ == ticket->0
            &&& void ==> action is Fail && action->Fail_0@ is Login
            &&& void && written_at(m, seq!["message"@]) is Some ==> action->Fail_0@
                == ErrorView::Login(written_at(m, seq!["message"@])->0)
            &&& !scanned && !void ==> action == LoginAction::Sleep(2)
        }),
{
    let m = json_contents(reply);
    lemma_written_at(m, seq!["status"@]);
    lemma_written_at(m, seq!["message"@]);
    lemma_written_at(m, seq!["data"@, "members"@, "service_ticket"@]);
}

/// The server is asked as long as there is time and the user has not given up,
/// and not any longer.
pub proof fn law_waiting_ends_in_time(expired: bool, cancelled: bool, action: LoginAction)
    requires
        call_ensures(
            QuarkQrLogin::wait_for_login,
            (LoginEvent::Turn { expired, cancelled },),
            action,
        ),
    ensures
        action is Poll <==> !expired && !cancelled,
        expired || cancelled ==> action is Fail && action->Fail_0@ is Login,
        cancelled && !expired ==> action->Fail_0@ == ErrorView::Login("登录已取消"@),
        expired ==> action->Fail_0@ == ErrorView::Login("二维码登录超时，请重新扫码"@),
{
}

// ---------------------------------------------------------------------------
// The account
// ---------------------------------------------------------------------------

/// The first text that is there, empty if none is.
pub open spec fn first_there(texts: Seq<Option<Seq<char>>>) -> Seq<char>
    decreases texts.len(),
{
    if texts.len() == 0 {
        Seq::empty()
    } else {
        match texts[0] {
            Some(s) => s,
            None => first_there(texts.drop_first()),
        }
    }
}

/// What stands in a reply's data under a key.
pub open spec fn in_data(m: JsonModel, key: Seq<char>) -> Option<Seq<char>> {
    written_at(m, seq!["data"@, key])
}

/// What stands in a reply's user information under a key.
pub open spec fn in_user_info(m: JsonModel, key: Seq<char>) -> Option<Seq<char>> {
    written_at(m, seq!["data"@, "user_info"@, key])
}

proof fn lemma_first_there(m: JsonModel, paths: Seq<Seq<Seq<char>>>)
    ensures
        first_there(paths.map_values(|p: Seq<Seq<char>>| written_at(m, p))) == (match first_text(
            m,
            paths,
        ) {
            Some(s) => s,
            None => Seq::empty(),
        }),
    decreases paths.len(),
{
    let found = paths.map_values(|p: Seq<Seq<char>>| written_at(m, p));
    if paths.len() > 0 {
        lemma_written_at(m, paths[0]);
        lemma_first_there(m, paths.drop_first());
        assert(found.drop_first() =~= paths.drop_first().map_values(
            |p: Seq<Seq<char>>| written_at(m, p),
        ));
    }
}

/// The names under which a reply may give the user's id, the most telling first.
pub open spec fn ids_in(m: JsonModel) -> Seq<Option<Seq<char>>> {
    seq![
        in_data(m, "user_id"@),
        in_data(m, "userId"@),
        in_data(m, "uid"@),
        in_data(m, "id"@),
        in_user_info(m, "user_id"@),
        in_user_info(m, "uid"@),
    ]
}

/// The names under which a reply may give the user's name.
pub open spec fn nicknames_in(m: JsonModel) -> Seq<Option<Seq<char>>> {
    seq![in_data(m, "nickname"@), in_user_info(m, "nickname"@)]
}

/// The names under which a reply may give the address of the user's picture.
pub open spec fn avatars_in(m: JsonModel) -> Seq<Option<Seq<char>>> {
    seq![
        in_data(m, "avatar"@),
        in_data(m, "avatar_url"@),
        in_data(m, "avatarUrl"@),
        in_user_info(m, "avatar"@),
        in_user_info(m, "avatar_url"@),
    ]
}

/// The account has the first id, the first name and the first picture that the
/// reply gives. The session is taken over wherever there is an id or a name, and
/// a cookie; and its cookie is the one that the hosts' cookies make together.
pub proof fn law_account_is_taken_over(
    reply: serde_json::Value,
    cookies: Vec<String>,
    merged: String,
    r: Result<QrLoginResult, QuarkError>,
)
    requires
        call_ensures(QuarkQrLogin::finish_login, (&reply, &cookies), r),
        call_ensures(merge_cookies, (&cookies,), merged),
    ensures
        ({
            let m = json_contents(reply);
            let id = first_there(ids_in(m));
            let nickname = first_there(nicknames_in(m));
            &&& r is Ok <==> (id.len() > 0 || nickname.len() > 0) && merged@.len() > 0
            &&& r is Ok ==> {
                &&& r->Ok_0.account.user_id@ == id
                &&& r->Ok_0.account.nickname@ == nickname
                &&& r->Ok_0.account.avatar_url@ == first_there(avatars_in(m))
                &&& r->Ok_0.cookie@ == merged@
            }
            &&& id.len() == 0 && nickname.len() == 0 ==> r->Err_0@ == ErrorView::Malformed(
                "data.nickname"@,
            )
            &&& (id.len() > 0 || nickname.len() > 0) && merged@.len() == 0 ==> r->Err_0@
                == ErrorView::Malformed("登录 Cookie"@)
        }),
{
    let m = json_contents(reply);
    lemma_first_there(m, user_id_paths());
    lemma_first_there(m, nickname_paths());
    lemma_first_there(m, avatar_paths());
    assert(user_id_paths().map_values(|p: Seq<Seq<char>>| written_at(m, p)) =~= ids_in(m));
    assert(nickname_paths().map_values(|p: Seq<Seq<char>>| written_at(m, p)) =~= nicknames_in(m));
    assert(avatar_paths().map_values(|p: Seq<Seq<char>>| written_at(m, p)) =~= avatars_in(m));
}

/// Where a reply gives an id under `user_id`, the account has that id, whatever
/// else the reply holds; and where the id is not empty and there is a cookie, the
/// session is taken over.
pub proof fn law_user_id_is_taken_over(
    reply: serde_json::Value,
    cookies: Vec<String>,
    merged: String,
    r: Result<QrLoginResult, QuarkError>,
    id: Seq<char>,
)
    requires
        call_ensures(QuarkQrLogin::finish_login, (&reply, &cookies), r),
        call_ensures(merge_cookies, (&cookies,), merged),
        written_at(json_contents(reply), seq!["data"@, "user_id"@]) == Some(id),
    ensures
        r is Ok ==> r->Ok_0.account.user_id@ == id,
        id.len() > 0 && merged@.len() > 0 ==> r is Ok,
{
    law_account_is_taken_over(reply, cookies, merged, r);
    reveal_with_fuel(first_there, 2);
    assert(ids_in(json_contents(reply))[0] == Some(id));
}

// ---------------------------------------------------------------------------
// The session's cookie
// ---------------------------------------------------------------------------

proof fn lemma_parts_are_plain(all: Seq<Seq<char>>)
    requires
        forall|k: int| 0 <= k < all.len() ==> !(#[trigger] all[k]).contains(';'),
    ensures
        forall|i: int|
            0 <= i < distinct_parts(all).len() ==> {
                let part = #[trigger] distinct_parts(all)[i];
                &&& !part.contains(';')
                &&& part.len() > 0
                &&& !is_space(part[0])
                &&& !is_space(part.last())
            },
{
    law_distinct_parts(all);
    let parts = distinct_parts(all);
    assert forall|i: int| 0 <= i < parts.len() implies {
        let part = #[trigger] parts[i];
        &&& !part.contains(';')
        &&& part.len() > 0
        &&& !is_space(part[0])
        &&& !is_space(part.last())
    } by {
        let part = parts[i];
        let k = choose|k: int| 0 <= k < all.len() && part == trimmed(#[trigger] all[k]);
        lemma_trimmed(all[k]);
        let (x, y) = choose|x: int, y: int|
            0 <= x <= y <= all[k].len() && #[trigger] all[k].subrange(x, y) == trimmed(all[k]);
        assert forall|j: int| 0 <= j < part.len() implies part[j] != ';' by {
            assert(part[j] == all[k][x + j]);
            assert(all[k].contains(all[k][x + j]));
        }
    }
}

proof fn lemma_cookie_pieces(values: Seq<Seq<char>>)
    ensures
        forall|k: int|
            0 <= k < cookie_pieces(values).len() ==> !(#[trigger] cookie_pieces(values)[k]).contains(
                ';',
            ),
        values.len() > 0 ==> cookie_pieces(values).len() > 0,
        joined(cookie_pieces(values), seq![';']) == joined(values, seq![';']),
    decreases values.len(),
{
    let all = cookie_pieces(values);
    if values.len() > 0 {
        let init = values.drop_last();
        lemma_cookie_pieces(init);
        law_pieces_join_back(values.last(), ';');
        let before = cookie_pieces(init);
        let new = pieces(values.last(), ';');
        assert forall|k: int| 0 <= k < all.len() implies !(#[trigger] all[k]).contains(';') by {
            if k < before.len() {
                assert(all[k] == before[k]);
            } else {
                assert(all[k] == new[k - before.len()]);
            }
        }
        if init.len() > 0 {
            law_joining_in_groups(before, new, seq![';']);
        } else {
            assert(before =~= Seq::empty());
            assert(all =~= new);
            assert(values[0] == values.last());
        }
    }
}

proof fn lemma_trim_gap(part: Seq<char>)
    requires
        part.len() > 0,
        !is_space(part[0]),
        !is_space(part.last()),
    ensures
        trimmed(part) == part,
        trimmed(seq![' '] + part) == part,
{
    let f = |c: char| is_space(c);
    crate::text::lemma_leading(part, f, 0);
    assert(part.skip(0) =~= part);
    crate::text::lemma_trailing(part, f, 0);
    assert(part.take(part.len() as int) =~= part);
    let wide = seq![' '] + part;
    assert(f(wide[0]));
    assert(wide[1] == part[0]);
    crate::text::lemma_leading(wide, f, 1);
    assert(wide.skip(1) =~= part);
}

/// The parts that a cookie lists.
pub open spec fn listed_parts(cookie: Seq<char>) -> Seq<Seq<char>> {
    if cookie.len() == 0 {
        Seq::empty()
    } else {
        pieces(cookie, ';').map_values(|piece: Seq<char>| trimmed(piece))
    }
}

proof fn lemma_listed_parts(values: Seq<Seq<char>>)
    ensures
        listed_parts(session_cookie(values)) == distinct_parts(cookie_pieces(values)),
        session_cookie(values).len() == 0 <==> distinct_parts(cookie_pieces(values)).len() == 0,
{
    let all = cookie_pieces(values);
    let parts = distinct_parts(all);
    lemma_cookie_pieces(values);
    lemma_parts_are_plain(all);
    reveal_strlit("; ");
    let gap = seq![' '];
    assert("; "@ =~= seq![';'] + gap);
    let cookie = session_cookie(values);
    if parts.len() > 0 {
        law_joined_parts_split_back(parts, ';', gap);
        let found = pieces(cookie, ';');
        if cookie.len() == 0 {
            assert(found.len() == 1);
            assert(found[0] == parts[0]);
            assert(found[0].len() == 0);
        }
        assert forall|i: int| 0 <= i < parts.len() implies trimmed(#[trigger] found[i])
            == parts[i] by {
            lemma_trim_gap(parts[i]);
        }
        assert(listed_parts(cookie) =~= parts);
    } else {
        assert(listed_parts(cookie) =~= parts);
    }
}

/// The cookie of a session lists every part that some host has set, each of them
/// once, and no other.
pub proof fn law_session_cookie_lists_every_part(cookies: Vec<String>, merged: String)
    requires
        call_ensures(merge_cookies, (&cookies,), merged),
    ensures
        listed_parts(merged@).no_duplicates(),
        forall|v: int, k: int|
            0 <= v < cookies@.len() && 0 <= k < pieces(cookies@[v]@, ';').len() && !is_blank(
                #[trigger] pieces(cookies@[v]@, ';')[k],
            ) ==> listed_parts(merged@).contains(trimmed(pieces(cookies@[v]@, ';')[k])),
        forall|i: int|
            0 <= i < listed_parts(merged@).len() ==> set_as_part(
                texts(cookies@),
                #[trigger] listed_parts(merged@)[i],
            ),
{
    let values = texts(cookies@);
    let all = cookie_pieces(values);
    lemma_listed_parts(values);
    law_distinct_parts(all);
    lemma_flat(values);
    let parts = listed_parts(merged@);
    assert forall|v: int, k: int|
        0 <= v < cookies@.len() && 0 <= k < pieces(cookies@[v]@, ';').len() && !is_blank(
            #[trigger] pieces(cookies@[v]@, ';')[k],
        ) implies parts.contains(trimmed(pieces(cookies@[v]@, ';')[k])) by {
        assert(values[v] == cookies@[v]@);
        let piece = pieces(values[v], ';')[k];
        lemma_trimmed(piece);
        assert(all.contains(piece));
        let at = choose|at: int| 0 <= at < all.len() && all[at] == piece;
        assert(trimmed(all[at]).len() > 0);
    }
    assert forall|i: int| 0 <= i < parts.len() implies set_as_part(values, #[trigger] parts[i]) by {
        assert(parts[i] == distinct_parts(all)[i]);
        let at = choose|at: int| 0 <= at < all.len() && parts[i] == trimmed(#[trigger] all[at]);
        assert(set_by(values, all[at]));
    }
}

/// A piece is one of those between the semicolons of some values.
pub open spec fn set_by(values: Seq<Seq<char>>, piece: Seq<char>) -> bool {
    exists|v: int, k: int|
        0 <= v < values.len() && 0 <= k < pieces(values[v], ';').len() && #[trigger] pieces(
            values[v],
            ';',
        )[k] == piece
}

/// A part is such a piece, without the white space around it.
pub open spec fn set_as_part(values: Seq<Seq<char>>, part: Seq<char>) -> bool {
    exists|piece: Seq<char>| #[trigger] set_by(values, piece) && trimmed(piece) == part
}

proof fn lemma_flat(values: Seq<Seq<char>>)
    ensures
        forall|v: int, k: int|
            0 <= v < values.len() && 0 <= k < pieces(values[v], ';').len() ==> cookie_pieces(
                values,
            ).contains(#[trigger] pieces(values[v], ';')[k]),
        forall|at: int|
            0 <= at < cookie_pieces(values).len() ==> set_by(
                values,
                #[trigger] cookie_pieces(values)[at],
            ),
    decreases values.len(),
{
    if values.len() > 0 {
        let init = values.drop_last();
        lemma_flat(init);
        let all = cookie_pieces(values);
        let before = cookie_pieces(init);
        let new = pieces(values.last(), ';');
        assert forall|v: int, k: int|
            0 <= v < values.len() && 0 <= k < pieces(values[v], ';').len() implies all.contains(
            #[trigger] pieces(values[v], ';')[k],
        ) by {
            if v < init.len() {
                assert(init[v] == values[v]);
                assert(before.contains(pieces(init[v], ';')[k]));
                let at = choose|at: int| 0 <= at < before.len() && before[at] == pieces(init[v], ';')[k];
                assert(all[at] == before[at]);
            } else {
                assert(all[before.len() + k] == new[k]);
            }
        }
        assert forall|at: int| 0 <= at < all.len() implies set_by(values, #[trigger] all[at]) by {
            if at < before.len() {
                assert(all[at] == before[at]);
                assert(set_by(init, before[at]));
                let (v, k) = choose|v: int, k: int|
                    0 <= v < init.len() && 0 <= k < pieces(init[v], ';').len() && #[trigger] pieces(
                        init[v],
                        ';',
                    )[k] == before[at];
                assert(init[v] == values[v]);
                assert(pieces(values[v], ';')[k] == all[at]);
            } else {
                let v = values.len() - 1;
                assert(pieces(values[v], ';')[at - before.len()] == all[at]);
            }
        }
    }
}

/// What one more host has set comes last, behind a semicolon and a space, unless it
/// is there already or blank: then the cookie stays as it was.
pub proof fn law_next_cookie_comes_last(
    cookies: Vec<String>,
    value: String,
    more: Vec<String>,
    merged: String,
    longer: String,
)
    requires
        more@ == cookies@.push(value),
        !value@.contains(';'),
        call_ensures(merge_cookies, (&cookies,), merged),
        call_ensures(merge_cookies, (&more,), longer),
    ensures
        ({
            let part = trimmed(value@);
            if is_blank(value@) || listed_parts(merged@).contains(part) {
                longer@ == merged@
            } else if merged@.len() == 0 {
                longer@ == part
            } else {
                longer@ == merged@ + "; "@ + part
            }
        }),
{
    let values = texts(cookies@);
    let all = texts(more@);
    assert(all.drop_last() =~= values);
    assert(all.last() == value@);
    lemma_listed_parts(values);
    lemma_trimmed(value@);
    law_pieces_join_back(value@, ';');
    let one = pieces(value@, ';');
    lemma_single_piece(value@);
    assert(one =~= seq![value@]);
    let before = cookie_pieces(values);
    assert(cookie_pieces(all) =~= before.push(value@));
    assert(before.push(value@).drop_last() =~= before);
    let parts = distinct_parts(before);
    let part = trimmed(value@);
    if part.len() > 0 && !parts.contains(part) {
        assert(parts.push(part).drop_last() =~= parts);
        if parts.len() == 0 {
            assert(parts.push(part)[0] == part);
        }
    }
}

proof fn lemma_single_piece(s: Seq<char>)
    requires
        !s.contains(';'),
    ensures
        pieces(s, ';') == seq![s],
    decreases s.len(),
{
    if s.len() > 0 {
        let init = s.drop_last();
        assert forall|k: int| 0 <= k < init.len() implies init[k] != ';' by {
            assert(s.contains(s[k]));
        }
        lemma_single_piece(init);
        assert(s.contains(s[s.len() - 1]));
        assert(pieces(s, ';') =~= seq![s]) by {
            assert(init.push(s.last()) =~= s);
        }
    } else {
        assert(pieces(s, ';') =~= seq![s]) by {
            assert(s =~= Seq::empty());
        }
    }
}

} // verus!
