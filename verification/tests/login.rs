//! Logging in with a QR code.

use quarkdrive_windows::quark::error::QuarkError;
use quarkdrive_windows::quark::login::{
    cookie_addresses, merge_cookies, AccountInfo, LoginAction, LoginEvent, QrCodeData, QuarkQrLogin,
};
use quarkdrive_windows::quark::request::Method;
use quarkdrive_windows::windows_app::qr_view::paint_qr;
use quarkdrive_windows::windows_app::settings::login_failure_shown;
use serde_json::Value;

fn json(text: &str) -> Value {
    serde_json::from_str(text).unwrap()
}

fn strings(list: &[&str]) -> Vec<String> {
    list.iter().map(|s| s.to_string()).collect()
}

fn message(action: LoginAction) -> String {
    match action {
        LoginAction::Fail(e) => e.message(),
        _ => panic!("no failure"),
    }
}

fn code() -> QrCodeData {
    QuarkQrLogin::get_qr_code(&json(
        r#"{"status":2000000,"data":{"members":{"token":"st 1/2"}}}"#,
    ))
    .unwrap()
}

#[test]
fn a_token_is_asked_for() {
    let request = QuarkQrLogin::token_request("id");
    assert_eq!(request.method, Method::Get);
    assert_eq!(request.url, "https://uop.quark.cn/cas/ajax/getTokenForQrcodeLogin");
    let query: Vec<_> = request.query.iter().map(|(k, v)| (k.as_str(), v.as_str())).collect();
    assert_eq!(query, vec![("client_id", "532"), ("v", "1.2"), ("request_id", "id")]);
    assert!(request.headers.is_empty());
}

#[test]
fn a_token_becomes_a_code() {
    let qr = code();
    assert_eq!(qr.token, "st 1/2");
    assert_eq!(
        qr.url,
        "https://su.quark.cn/4_eMHBJ?token=st%201%2F2&client_id=532&ssb=weblogin&uc_param_str=&uc_biz_str=S%3Acustom%7COPT%3ASAREA%400%7COPT%3AIMMERSIVE%401%7COPT%3ABACK_BTN_STYLE%400"
    );
    assert_eq!(qr.modules.len(), qr.width * qr.width);
    let expected = qrcode::QrCode::new(qr.url.as_bytes()).unwrap();
    assert_eq!(qr.width, expected.width());
    let dark: Vec<bool> = expected
        .to_colors()
        .into_iter()
        .map(|c| c == qrcode::Color::Dark)
        .collect();
    assert_eq!(qr.modules, dark);
    // A finder pattern: a dark ring around a light one.
    assert!((0..7).all(|x| qr.modules[x]));
    assert!((1..6).all(|x| !qr.modules[qr.width + x]));
}

#[test]
fn a_token_that_does_not_come() {
    match QuarkQrLogin::get_qr_code(&json(r#"{"status":5,"message":"busy"}"#)) {
        Err(e) => assert_eq!(e.message(), "二维码登录失败: 获取二维码失败：busy"),
        Ok(_) => panic!(),
    }
    match QuarkQrLogin::get_qr_code(&json("{}")) {
        Err(e) => assert_eq!(e.message(), "二维码登录失败: 获取二维码失败：未知错误"),
        Ok(_) => panic!(),
    }
    assert!(matches!(
        QuarkQrLogin::get_qr_code(&json(r#"{"status":"2000000","data":{}}"#)),
        Err(QuarkError::Malformed("data.members.token"))
    ));
    let long = "x".repeat(4000);
    let reply = json(&format!(
        r#"{{"status":2000000,"data":{{"members":{{"token":"{long}"}}}}}}"#
    ));
    match QuarkQrLogin::get_qr_code(&reply) {
        Err(e) => assert_eq!(e.message(), "二维码登录失败: 生成二维码失败：data too long"),
        Ok(_) => panic!(),
    }
}

#[test]
fn a_symbol_or_its_error_is_shown() {
    let qr = QuarkQrLogin::show("t".into(), "u".into(), Ok((1, vec![true]))).unwrap();
    assert_eq!((qr.token.as_str(), qr.url.as_str(), qr.width), ("t", "u", 1));
    assert_eq!(qr.modules, vec![true]);
    match QuarkQrLogin::show("t".into(), "u".into(), Err("no".into())) {
        Err(QuarkError::Login(text)) => assert_eq!(text, "生成二维码失败：no"),
        _ => panic!(),
    }
}

#[test]
fn a_poll_names_the_token() {
    let request = QuarkQrLogin::poll_request("tok", "id");
    assert_eq!(request.url, "https://uop.quark.cn/cas/ajax/getServiceTicketByQrcodeToken");
    let query: Vec<_> = request.query.iter().map(|(k, v)| (k.as_str(), v.as_str())).collect();
    assert_eq!(
        query,
        vec![("client_id", "532"), ("v", "1.2"), ("token", "tok"), ("request_id", "id")]
    );
    let request = QuarkQrLogin::account_request("ticket");
    assert_eq!(request.url, "https://pan.quark.cn/account/info");
    assert_eq!(request.query[0], ("st".to_owned(), "ticket".to_owned()));
    assert_eq!(request.query[1], ("lw".to_owned(), "scan".to_owned()));
}

#[test]
fn waiting_goes_by_turns() {
    let turn = |expired, cancelled| {
        QuarkQrLogin::wait_for_login(LoginEvent::Turn { expired, cancelled })
    };
    assert!(matches!(turn(false, false), LoginAction::Poll));
    assert_eq!(message(turn(true, false)), "二维码登录失败: 二维码登录超时，请重新扫码");
    assert_eq!(message(turn(true, true)), "二维码登录失败: 二维码登录超时，请重新扫码");
    let cancelled = message(turn(false, true));
    assert_eq!(cancelled, "二维码登录失败: 登录已取消");
    assert!(!login_failure_shown(&cancelled));
    assert!(login_failure_shown("二维码登录失败: x"));
}

#[test]
fn waiting_goes_by_replies() {
    let reply = |text: &str| QuarkQrLogin::wait_for_login(LoginEvent::Reply(json(text)));
    match reply(r#"{"status":2000000,"data":{"members":{"service_ticket":"ST"}}}"#) {
        LoginAction::Finish(ticket) => assert_eq!(ticket, "ST"),
        _ => panic!(),
    }
    assert!(matches!(reply(r#"{"status":2000000}"#), LoginAction::Sleep(2)));
    assert!(matches!(reply(r#"{"status":50004001}"#), LoginAction::Sleep(2)));
    assert!(matches!(reply(r#"{"status":50004005}"#), LoginAction::Sleep(2)));
    assert!(matches!(reply("{}"), LoginAction::Sleep(2)));
    assert_eq!(message(reply(r#"{"status":50004002}"#)), "二维码登录失败: 二维码已失效");
    assert_eq!(
        message(reply(r#"{"status":50004004,"message":"gone"}"#)),
        "二维码登录失败: gone"
    );
}

#[test]
fn cookies_come_from_four_hosts() {
    assert_eq!(
        cookie_addresses(),
        [
            "https://pan.quark.cn/",
            "https://drive.quark.cn/",
            "https://drive-pc.quark.cn/",
            "https://uop.quark.cn/",
        ]
    );
}

#[test]
fn cookies_are_merged_once_each() {
    let values = strings(&["a=1; b=2", " b=2;c=3 ", "", ";; a=1 "]);
    assert_eq!(merge_cookies(&values), "a=1; b=2; c=3");
    assert_eq!(merge_cookies(&Vec::new()), "");
    assert_eq!(merge_cookies(&strings(&[" ; "])), "");
    assert_eq!(merge_cookies(&strings(&["a=1", "a=2"])), "a=1; a=2");
}

#[test]
fn a_session_is_taken_over() {
    let cookies = strings(&["k=v"]);
    let reply = json(r#"{"data":{"nickname":"N","uid":12,"avatarUrl":"A"}}"#);
    let login = QuarkQrLogin::finish_login(&reply, &cookies).unwrap();
    assert_eq!(login.cookie, "k=v");
    let expected = AccountInfo {
        nickname: "N".to_owned(),
        user_id: "12".to_owned(),
        avatar_url: "A".to_owned(),
    };
    assert_eq!(login.account, expected);

    let reply = json(
        r#"{"data":{"id":"4","userId":"2","user_info":{"nickname":"M","user_id":"9","avatar":"V"}}}"#,
    );
    let login = QuarkQrLogin::finish_login(&reply, &cookies).unwrap();
    assert_eq!(login.account.nickname, "M");
    assert_eq!(login.account.user_id, "2");
    assert_eq!(login.account.avatar_url, "V");
}

#[test]
fn a_session_needs_an_account_and_a_cookie() {
    let nobody = json(r#"{"data":{"nickname":"","avatar":"A"}}"#);
    assert!(matches!(
        QuarkQrLogin::finish_login(&nobody, &strings(&["k=v"])),
        Err(QuarkError::Malformed("data.nickname"))
    ));
    let somebody = json(r#"{"data":{"uid":"1"}}"#);
    assert!(matches!(
        QuarkQrLogin::finish_login(&somebody, &strings(&[" ;"])),
        Err(QuarkError::Malformed("登录 Cookie"))
    ));
    let account = AccountInfo::default();
    assert_eq!(account.clone().nickname, "");
    let qr = code();
    assert_eq!(qr.clone().modules, qr.modules);
}

#[test]
fn a_code_is_painted_module_by_module() {
    let qr = code();
    let places = paint_qr(&qr);
    assert_eq!(places.len(), qr.modules.iter().filter(|dark| **dark).count());
    let count = qr.width as i32 + 8;
    let size = 610 / count;
    let left = 44 + (610 - count * size) / 2;
    let top = 82 + (620 - count * size) / 2;
    assert_eq!(places[0].left, left + 4 * size);
    assert_eq!(places[0].top, top + 4 * size);
    assert_eq!(places[0].right - places[0].left, size);
    for (i, a) in places.iter().enumerate() {
        assert!(a.left >= 44 && a.right <= 654 && a.top >= 82 && a.bottom <= 702);
        for b in &places[i + 1..] {
            assert!(a.right <= b.left || b.right <= a.left || a.bottom <= b.top || b.bottom <= a.top);
        }
    }
}

#[test]
fn a_code_larger_than_the_area_has_modules_of_one_pixel() {
    let width = 700;
    let mut modules = vec![false; width * width];
    modules[width + 2] = true;
    let qr = QrCodeData { token: String::new(), url: String::new(), width, modules };
    let places = paint_qr(&qr);
    let left = 44 + (610 - 708) / 2;
    let top = 82 + (620 - 708) / 2;
    assert_eq!(places.len(), 1);
    assert_eq!((places[0].left, places[0].top), (left + 6, top + 5));
    assert_eq!((places[0].right, places[0].bottom), (left + 7, top + 6));
}
