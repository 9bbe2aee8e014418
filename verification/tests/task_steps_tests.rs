use weiback_rs::emoticon::{emoticon_table, EmoticonError};
use weiback_rs::json_record::JsonField;
use weiback_rs::meta_data::PostUser;
use weiback_rs::post_fields::{derive_post_fields, null_as_zero, null_means_set, user_if_known};
use weiback_rs::task_steps::{
    export_page_name, export_progress_text, export_step, text_after_long_text, RetryAction,
    RetryState,
};

fn user(id: u64) -> PostUser {
    PostUser {
        profile_url: String::new(),
        planet_video: false,
        v_plus: 0,
        id,
        pc_new: 0,
        screen_name: String::new(),
        profile_image_url: String::new(),
        verified: false,
        verified_type: 0,
        domain: String::new(),
        weihao: String::new(),
        verified_type_ext: None,
        avatar_large: String::new(),
        avatar_hd: String::new(),
        follow_me: false,
        following: false,
        mbrank: 0,
        mbtype: 0,
        icon_list: String::new(),
    }
}

fn obj(members: Vec<(&str, JsonField)>) -> JsonField {
    JsonField::Object(members.into_iter().map(|(k, v)| (k.to_string(), v)).collect())
}

fn s(x: &str) -> JsonField {
    JsonField::Str(x.to_string())
}

#[test]
fn derived_fields_of_a_post() {
    let f = derive_post_fields(Some(7), "Mon May 29 19:29:32 +0800 2023", Some(99), "hi").unwrap();
    assert_eq!(f.uid, Some(7));
    assert_eq!(f.created_at_timestamp, 1685359772);
    assert_eq!(f.created_at, "2023-05-29 19:29:32 +08:00");
    assert_eq!(f.created_at_tz, "+08:00");
    assert_eq!(f.retweeted_status, Some(99));
    assert!(!f.client_only);
    let g = derive_post_fields(None, "Mon May 29 19:29:32 +0800 2023", None, "该内容请至手机客户端查看").unwrap();
    assert!(g.client_only);
    assert!(derive_post_fields(None, "yesterday", None, "").is_err());
}

#[test]
fn optional_members_read_as_the_api_means_them() {
    assert!(user_if_known(Some(user(0))).is_none());
    assert_eq!(user_if_known(Some(user(5))).map(|u| u.id), Some(5));
    assert!(user_if_known(None).is_none());
    assert!(null_means_set(None));
    assert!(!null_means_set(Some("x".to_string())));
    assert_eq!(null_as_zero(None), 0);
    assert_eq!(null_as_zero(Some(-3)), -3);
}

#[test]
fn export_steps_and_messages() {
    assert_eq!(export_step(0), (0, true));
    assert_eq!(export_step(199), (0, true));
    assert_eq!(export_step(200), (200, false));
    assert_eq!(export_step(450), (200, false));
    assert_eq!(export_page_name(3), "weiback-3");
    assert_eq!(export_progress_text(450, 200), "已处理250条，共450条...\n可能需要下载图片");
}

#[test]
fn retries_stop_after_three_answers() {
    let mut r = RetryState::new();
    assert_eq!(r.on_status(503), RetryAction::SleepThenRetry);
    assert_eq!(r.on_status(404), RetryAction::SleepThenRetry);
    assert_eq!(r.on_status(500), RetryAction::SleepThenFail(404));
    let mut r = RetryState::new();
    assert_eq!(r.on_status(502), RetryAction::SleepThenRetry);
    assert_eq!(r.on_status(200), RetryAction::Return);
    let mut r = RetryState::new();
    r.on_status(500);
    r.on_status(500);
    assert_eq!(r.on_status(500), RetryAction::SleepThenFail(200));
}

#[test]
fn long_text_replaces_text_when_fetched() {
    assert_eq!(text_after_long_text("short".into(), true, Some("long".into())), "long");
    assert_eq!(text_after_long_text("short".into(), true, None), "short");
    assert_eq!(text_after_long_text("short".into(), false, Some("long".into())), "short");
}

#[test]
fn emoticon_table_reads_groups() {
    let emoji = |p: &str, u: &str| obj(vec![("phrase", s(p)), ("url", s(u))]);
    let answer = obj(vec![
        ("ok", JsonField::PosInt(1)),
        (
            "data",
            obj(vec![(
                "emoticon",
                obj(vec![
                    ("ZH_CN", obj(vec![("default", JsonField::Array(vec![emoji("[doge]", "d1"), emoji("[cat]", "c")]))])),
                    ("ZH_TW", obj(vec![("more", JsonField::Array(vec![emoji("[doge]", "d2")]))])),
                ]),
            )]),
        ),
    ]);
    let m = emoticon_table(&answer).unwrap();
    assert_eq!(m.len(), 2);
    assert_eq!(m.get(&"[doge]".to_string()).map(|x| x.as_str()), Some("d2"));
    assert_eq!(m.get(&"[cat]".to_string()).map(|x| x.as_str()), Some("c"));
    let not_ok = obj(vec![("ok", JsonField::PosInt(0))]);
    assert_eq!(emoticon_table(&not_ok).unwrap_err(), EmoticonError::NotOk);
    let bad = obj(vec![("ok", JsonField::PosInt(1)), ("data", obj(vec![("emoticon", JsonField::Array(vec![]))]))]);
    assert_eq!(emoticon_table(&bad).unwrap_err(), EmoticonError::BadFormat);
    let no_url = obj(vec![
        ("ok", JsonField::PosInt(1)),
        ("data", obj(vec![("emoticon", obj(vec![("g", obj(vec![("x", JsonField::Array(vec![obj(vec![("phrase", s("[a]"))])]))]))]))])),
    ]);
    assert_eq!(emoticon_table(&no_url).unwrap_err(), EmoticonError::BadFormat);
}
