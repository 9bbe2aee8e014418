use weiback_rs::json_record::JsonField;
use weiback_rs::mobile::{convert_mobile2pc_post, convert_mobile2pc_post_non_rec, MobilePostError};

fn conv(mut post: JsonField) -> Result<JsonField, MobilePostError> {
    convert_mobile2pc_post_non_rec(&mut post).map(|_| post)
}

fn conv_rec(mut post: JsonField) -> Result<JsonField, MobilePostError> {
    convert_mobile2pc_post(&mut post).map(|_| post)
}

fn o(members: Vec<(&str, JsonField)>) -> JsonField {
    JsonField::Object(members.into_iter().map(|(k, v)| (k.to_string(), v)).collect())
}

fn s(x: &str) -> JsonField {
    JsonField::Str(x.to_string())
}

fn mobile_post(id: &str) -> JsonField {
    o(vec![
        ("id", s(id)),
        ("bid", s("Nabc")),
        ("text", s("hello")),
        (
            "url_objects",
            JsonField::Array(vec![o(vec![
                ("url_ori", s("http://t.cn/x")),
                (
                    "info",
                    o(vec![
                        ("url_short", s("http://t.cn/x")),
                        ("url_long", s("https://long")),
                        ("type", JsonField::PosInt(39)),
                        ("result", JsonField::Bool(true)),
                    ]),
                ),
            ])]),
        ),
        (
            "pics",
            JsonField::Array(vec![o(vec![
                ("pid", s("p1")),
                ("url", s("https://s/p1.jpg")),
                ("large", o(vec![("url", s("https://l/p1.jpg"))])),
            ])]),
        ),
    ])
}

#[test]
fn mobile_post_in_desktop_form() {
    let out = conv(mobile_post("4900000000000001")).unwrap();
    let expected = o(vec![
        ("id", JsonField::PosInt(4900000000000001)),
        ("bid", JsonField::Null),
        ("text", s("hello")),
        ("url_objects", JsonField::Null),
        ("pics", JsonField::Null),
        ("mblogid", s("Nabc")),
        ("text_raw", s("hello")),
        ("favorited", JsonField::Bool(true)),
        (
            "url_struct",
            JsonField::Array(vec![o(vec![
                ("ori_url", s("http://t.cn/x")),
                ("result", JsonField::Bool(true)),
                ("url_long", s("https://long")),
                ("url_short", s("http://t.cn/x")),
                ("url_title", s("http://t.cn/x")),
                ("url_type", JsonField::PosInt(39)),
            ])]),
        ),
        ("pic_ids", JsonField::Array(vec![s("p1")])),
        (
            "pic_infos",
            o(vec![(
                "p1",
                o(vec![
                    ("bmiddle", o(vec![("url", s("https://s/p1.jpg"))])),
                    ("large", o(vec![("url", s("https://l/p1.jpg"))])),
                    ("pic_id", s("p1")),
                    ("type", s("pic")),
                ]),
            )]),
        ),
    ]);
    assert_eq!(format!("{:?}", out), format!("{:?}", expected));
}

#[test]
fn mobile_post_errors() {
    let bad = conv(mobile_post("12x"));
    assert_eq!(bad.unwrap_err(), MobilePostError::BadId);
    let no_id = o(vec![("id", JsonField::PosInt(1))]);
    assert_eq!(conv(no_id).unwrap_err(), MobilePostError::IdNotString);
    let not_object = JsonField::Array(vec![]);
    assert_eq!(conv(not_object).unwrap_err(), MobilePostError::IdNotString);
    let bad_pic = o(vec![("id", s("1")), ("pics", JsonField::Array(vec![o(vec![("pid", JsonField::PosInt(3))])]))]);
    assert_eq!(conv(bad_pic).unwrap_err(), MobilePostError::PidNotString);
}

#[test]
fn minimal_mobile_post_and_negative_id() {
    let out = conv(o(vec![("id", s("-5"))])).unwrap();
    let expected = o(vec![
        ("id", JsonField::NegInt(-5)),
        ("bid", JsonField::Null),
        ("mblogid", JsonField::Null),
        ("text_raw", JsonField::Null),
        ("favorited", JsonField::Bool(true)),
        ("url_objects", JsonField::Null),
        ("pics", JsonField::Null),
    ]);
    assert_eq!(format!("{:?}", out), format!("{:?}", expected));
}

#[test]
fn reposted_mobile_post_converted_too() {
    let inner = o(vec![("id", s("2"))]);
    let outer = o(vec![("id", s("1")), ("retweeted_status", inner)]);
    let out = conv_rec(outer).unwrap();
    let text = format!("{:?}", out);
    assert!(text.contains("(\"retweeted_status\", Object([(\"id\", PosInt(2)), (\"bid\", Null)"));
    let bad_inner = o(vec![("id", s("1")), ("retweeted_status", o(vec![("id", s("x"))]))]);
    assert_eq!(conv_rec(bad_inner).unwrap_err(), MobilePostError::BadId);
    let not_object = o(vec![("id", s("1")), ("retweeted_status", JsonField::Null)]);
    assert!(format!("{:?}", conv_rec(not_object).unwrap()).contains("(\"retweeted_status\", Null)"));
}

#[test]
fn failed_conversion_leaves_the_post_in_place() {
    let mut bad_id = o(vec![("id", s("12x")), ("bid", s("B"))]);
    let before = format!("{:?}", bad_id);
    assert_eq!(convert_mobile2pc_post_non_rec(&mut bad_id), Err(MobilePostError::BadId));
    assert_eq!(format!("{:?}", bad_id), before);
    let mut bad_pic = o(vec![
        ("id", s("1")),
        ("bid", s("B")),
        ("pics", JsonField::Array(vec![o(vec![("pid", JsonField::PosInt(3))])])),
    ]);
    assert_eq!(convert_mobile2pc_post_non_rec(&mut bad_pic), Err(MobilePostError::PidNotString));
    let expected = o(vec![
        ("id", JsonField::PosInt(1)),
        ("bid", JsonField::Null),
        ("pics", JsonField::Null),
        ("mblogid", s("B")),
        ("text_raw", JsonField::Null),
        ("favorited", JsonField::Bool(true)),
        ("url_objects", JsonField::Null),
    ]);
    assert_eq!(format!("{:?}", bad_pic), format!("{:?}", expected));
}

#[test]
fn failed_repost_conversion_keeps_the_converted_post() {
    let mut post = o(vec![("id", s("1")), ("retweeted_status", o(vec![("id", s("x"))]))]);
    assert_eq!(convert_mobile2pc_post(&mut post), Err(MobilePostError::BadId));
    let text = format!("{:?}", post);
    assert!(text.contains("(\"id\", PosInt(1))"));
    assert!(text.contains("(\"retweeted_status\", Object([(\"id\", Str(\"x\"))]))"));
}
