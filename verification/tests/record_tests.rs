use weiback_rs::json_record::{JsonField, JsonObject};
use weiback_rs::sql_data::{SqlPost, SqlUser};

fn s(x: &str) -> JsonField {
    JsonField::Str(x.to_string())
}

fn obj(members: Vec<(&str, JsonField)>) -> JsonObject {
    JsonObject { members: members.into_iter().map(|(k, v)| (k.to_string(), v)).collect() }
}

#[test]
fn json_object_readers() {
    let o = obj(vec![
        ("a", JsonField::PosInt(5)),
        ("big", JsonField::PosInt(u64::MAX)),
        ("neg", JsonField::NegInt(-2)),
        ("f", JsonField::Float),
        ("s", s("x")),
        ("b", JsonField::Bool(true)),
        ("n", JsonField::Null),
        ("a", JsonField::PosInt(6)),
    ]);
    assert_eq!(o.find("a"), Some(0));
    assert_eq!(o.find("zz"), None);
    assert_eq!(o.int_at("a"), 5);
    assert_eq!(o.int_at("big"), 0);
    assert_eq!(o.int_at("neg"), -2);
    assert_eq!(o.int_at("f"), 0);
    assert_eq!(o.opt_int_at("n"), None);
    assert_eq!(o.opt_int_at("neg"), Some(-2));
    assert_eq!(o.str_at("s"), "x");
    assert_eq!(o.str_at("a"), "");
    assert_eq!(o.opt_str_at("s"), Some("x".to_string()));
    assert_eq!(o.opt_str_at("missing"), None);
    assert!(o.bool_at("b"));
    assert!(!o.bool_at("s"));
}

#[test]
fn from_post() {
    let p = obj(vec![
        ("id", JsonField::PosInt(4900000000000000)),
        ("created_at", s("Mon May 29 19:29:32 +0800 2023")),
        ("mblogid", s("N1abc")),
        ("text_raw", s("hello")),
        ("deleted", JsonField::Bool(true)),
        ("uid", JsonField::PosInt(1234)),
        ("pic_num", JsonField::Null),
        ("visible", JsonField::Object(vec![])),
        ("url_struct", JsonField::Array(vec![])),
        ("region_name", s("发布于 北京")),
        ("is_long_text", JsonField::Bool(true)),
        ("reposts_count", JsonField::NegInt(-1)),
        ("attitudes_status", JsonField::Float),
    ]);
    let r = SqlPost::from_json(&p);
    assert_eq!(r.id, 4900000000000000);
    assert_eq!(r.created_at, "Mon May 29 19:29:32 +0800 2023");
    assert_eq!(r.mblogid, "N1abc");
    assert_eq!(r.text_raw, "hello");
    assert_eq!(r.source, "");
    assert!(r.deleted);
    assert_eq!(r.uid, Some(1234));
    assert_eq!(r.pic_num, None);
    assert_eq!(r.visible, "");
    assert_eq!(r.url_struct, None);
    assert_eq!(r.region_name, Some("发布于 北京".to_string()));
    assert!(r.is_long_text);
    assert_eq!(r.reposts_count, Some(-1));
    assert_eq!(r.attitudes_status, 0);
    assert!(!r.favorited);
}

#[test]
fn from_users() {
    let u = obj(vec![
        ("id", JsonField::PosInt(7)),
        ("screen_name", s("名字")),
        ("verified", JsonField::Bool(true)),
        ("verified_type", JsonField::NegInt(-1)),
        ("icon_list", JsonField::Array(vec![])),
        ("verified_type_ext", JsonField::PosInt(1)),
    ]);
    let r = SqlUser::from_json(&u);
    assert_eq!(r.id, 7);
    assert_eq!(r.screen_name, "名字");
    assert_eq!(r.profile_url, "");
    assert!(r.verified);
    assert_eq!(r.verified_type, -1);
    assert_eq!(r.icon_list, "");
    assert_eq!(r.verified_type_ext, Some(1));
    assert_eq!(r.mbrank, 0);
}

#[test]
fn from_posts() {
    let data = vec![
        obj(vec![("id", JsonField::PosInt(1)), ("text_raw", s("one"))]),
        obj(vec![("id", JsonField::PosInt(2)), ("text_raw", s("two")), ("favorited", JsonField::Bool(true))]),
        obj(vec![]),
    ];
    let rows: Vec<SqlPost> = data.iter().map(SqlPost::from_json).collect();
    assert_eq!(rows[0].id, 1);
    assert_eq!(rows[0].text_raw, "one");
    assert!(!rows[0].favorited);
    assert_eq!(rows[1].id, 2);
    assert!(rows[1].favorited);
    assert_eq!(rows[2].id, 0);
    assert_eq!(rows[2].text_raw, "");
}
