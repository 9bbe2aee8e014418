use weiback_rs::json_record::JsonField;
use weiback_rs::login::{
    confirm_check_url, confirm_outcome, cookie_valid, get_text, login_reply, login_url,
    parse_i64, qrcode_reply, qrcode_url, ConfirmOutcome, LoginReplyError,
};

fn o(members: Vec<(&str, JsonField)>) -> JsonField {
    JsonField::Object(members.into_iter().map(|(k, v)| (k.to_string(), v)).collect())
}

fn s(x: &str) -> JsonField {
    JsonField::Str(x.to_string())
}

#[test]
fn jsonp_body() {
    assert_eq!(get_text("STK_1681(({\"a\":1});"), Some("({\"a\":1}"));
    assert_eq!(get_text("STK_1({\"retcode\":1});"), Some("{\"retcode\":1}"));
    assert_eq!(get_text("no paren"), None);
}

#[test]
fn login_urls() {
    assert_eq!(
        qrcode_url(1685359772000),
        "https://login.sina.com.cn/sso/qrcode/image?entry=weibo&size=180&callback=STK_16853597720001"
    );
    assert_eq!(
        confirm_check_url("QR", 10, 3),
        "https://login.sina.com.cn/sso/qrcode/check?entry=weibo&qrid=QR&callback=STK_103"
    );
    assert_eq!(
        login_url("ALT", 10, 5),
        "https://login.sina.com.cn/sso/login.php?entry=weibo&returntype=TEXT&crossdomain=1&cdult=3&domain=weibo&alt=ALT&savestate=30&callback=STK_105"
    );
}

#[test]
fn qrcode_answer() {
    let reply = o(vec![("data", o(vec![("image", s("//v2.qr.weibo.cn/x.png")), ("qrid", s("Q1"))]))]);
    assert_eq!(
        qrcode_reply(&reply),
        ("http://v2.qr.weibo.cn/x.png".to_string(), "Q1".to_string())
    );
}

#[test]
fn confirm_answers() {
    let ok = o(vec![("retcode", JsonField::PosInt(20000000)), ("data", o(vec![("alt", s("T"))]))]);
    assert_eq!(confirm_outcome(&ok), ConfirmOutcome::Confirmed("T".to_string()));
    let no_alt = o(vec![("retcode", JsonField::PosInt(20000000))]);
    assert_eq!(confirm_outcome(&no_alt), ConfirmOutcome::NoTicket);
    let wait = o(vec![("retcode", JsonField::PosInt(50114002))]);
    assert_eq!(confirm_outcome(&wait), ConfirmOutcome::Waiting);
    let wait = o(vec![("retcode", JsonField::PosInt(50114001))]);
    assert_eq!(confirm_outcome(&wait), ConfirmOutcome::Waiting);
    let other = o(vec![("retcode", JsonField::PosInt(1))]);
    assert_eq!(confirm_outcome(&other), ConfirmOutcome::Unexpected);
    let text = o(vec![("retcode", s("20000000"))]);
    assert_eq!(confirm_outcome(&text), ConfirmOutcome::NoRetcode);
    assert_eq!(confirm_outcome(&JsonField::Null), ConfirmOutcome::NoRetcode);
}

#[test]
fn cookie_check() {
    assert!(cookie_valid(&o(vec![("ok", JsonField::PosInt(1))])));
    assert!(!cookie_valid(&o(vec![("ok", JsonField::PosInt(0))])));
    assert!(!cookie_valid(&o(vec![("ok", JsonField::Float)])));
    assert!(!cookie_valid(&o(vec![("ok", s("1"))])));
    assert!(!cookie_valid(&JsonField::Array(vec![])));
}

#[test]
fn integers_read_like_parse() {
    assert_eq!(parse_i64("123"), Some(123));
    assert_eq!(parse_i64("+12"), Some(12));
    assert_eq!(parse_i64("-9223372036854775808"), Some(i64::MIN));
    assert_eq!(parse_i64("9223372036854775807"), Some(i64::MAX));
    assert_eq!(parse_i64("9223372036854775808"), None);
    assert_eq!(parse_i64("-9223372036854775809"), None);
    assert_eq!(parse_i64("99999999999999999999999"), None);
    assert_eq!(parse_i64(""), None);
    assert_eq!(parse_i64("-"), None);
    assert_eq!(parse_i64("1a"), None);
    assert_eq!(parse_i64("007"), Some(7));
}

#[test]
fn login_answers() {
    let reply = o(vec![
        ("uid", s("5678")),
        ("crossDomainUrlList", JsonField::Array(vec![s("https://a"), s("https://b")])),
    ]);
    let r = login_reply(&reply).unwrap();
    assert_eq!((r.uid, r.urls.clone(), r.bad_url), (5678, vec!["https://a".to_string(), "https://b".to_string()], false));
    let reply = o(vec![
        ("uid", s("5678")),
        ("crossDomainUrlList", JsonField::Array(vec![s("https://a"), JsonField::Null, s("https://c")])),
    ]);
    let r = login_reply(&reply).unwrap();
    assert_eq!((r.urls.clone(), r.bad_url), (vec!["https://a".to_string()], true));
    assert_eq!(login_reply(&o(vec![])).unwrap_err(), LoginReplyError::NoUid);
    assert_eq!(login_reply(&o(vec![("uid", s("x"))])).unwrap_err(), LoginReplyError::BadUid);
    assert_eq!(login_reply(&o(vec![("uid", s("1"))])).unwrap_err(), LoginReplyError::NoUrlList);
}

#[test]
fn get_text_cuts_the_last_two_bytes() {
    assert_eq!(get_text("cb({\"a\":1})é"), Some("{\"a\":1})"));
    assert_eq!(get_text("cb({\"a\":1});"), Some("{\"a\":1}"));
}
