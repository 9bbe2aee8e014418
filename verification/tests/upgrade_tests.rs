use weiback_rs::json_record::JsonField;
use weiback_rs::upgrade::{
    avatar_index, classify_picture, convert_created_at, emoticon_urls, picture_page_sql,
    post_pic_index, status_flag, status_line, version_action, Checkpoints, EmoticonShapeError,
    PictureOwner, VersionAction,
};

#[test]
fn versions() {
    assert_eq!(version_action(1), VersionAction::UpToDate);
    assert_eq!(version_action(2), VersionAction::Newer);
    assert_eq!(version_action(-1), VersionAction::Invalid);
    assert_eq!(version_action(0), VersionAction::Upgrade);
}

#[test]
fn resumed_run_skips_recorded_steps() {
    let mut c = Checkpoints::resume(2);
    assert!(!c.is_unfinished());
    assert!(!c.is_unfinished());
    assert_eq!(c, Checkpoints { flag: 2, check_point: 2 });
    assert!(c.is_unfinished());
    assert_eq!(c, Checkpoints { flag: 3, check_point: 3 });
    assert!(c.is_unfinished());
    let mut fresh = Checkpoints::resume(0);
    assert!(fresh.is_unfinished());
    assert_eq!(fresh, Checkpoints { flag: 1, check_point: 1 });
}

#[test]
fn status_file_flag() {
    assert_eq!(status_flag(""), 0);
    assert_eq!(status_flag("0: task: convert\n1: - adding\n"), 1);
    assert_eq!(status_flag("1: a\n3: b\nx\n2: c"), 3);
    assert_eq!(status_flag("99999999999: too big\n4: ok"), 4);
    assert_eq!(status_flag("2147483647: max"), 2147483647);
    assert_eq!(status_flag("abc\n 5: spaced"), 0);
    assert_eq!(status_flag("007\r\n"), 7);
}

#[test]
fn status_lines() {
    assert_eq!(status_line(3, "task: add backedup column."), "3: task: add backedup column.\n");
    assert_eq!(status_line(-1, "x"), "-1: x\n");
}

#[test]
fn created_at_columns() {
    let rows = vec![
        (1, "Mon May 29 19:29:32 +0800 2023".to_string()),
        (2, "Tue May 30 04:07:49 -0530 2023".to_string()),
    ];
    let us = convert_created_at(&rows).unwrap();
    assert_eq!(us.len(), 2);
    assert_eq!((us[0].id, us[0].timestamp, us[0].timezone.as_str()), (1, 1685359772, "+08:00"));
    assert_eq!(us[1].id, 2);
    assert_eq!(us[1].timezone, "-05:30");
    let bad = vec![(1, "Mon May 29 19:29:32 +0800 2023".to_string()), (2, "yesterday".to_string())];
    assert!(convert_created_at(&bad).is_err());
}

#[test]
fn picture_owners() {
    let avatars = avatar_index(&vec![
        (7, "https://a.cn/p.jpg?x=1".to_string(), "https://a.cn/l.jpg".to_string(), "https://a.cn/h.jpg?y".to_string()),
        (8, "https://a.cn/p.jpg".to_string(), "https://a.cn/l8.jpg".to_string(), "https://a.cn/h8.jpg".to_string()),
    ]);
    assert_eq!(avatars.len(), 6);
    assert_eq!(avatars[0], ("https://a.cn/p.jpg".to_string(), 7));
    let posts = post_pic_index(&vec![
        (100, Some(JsonField::Array(vec![
            JsonField::Str("pid1".to_string()),
            JsonField::PosInt(3),
            JsonField::Str("pid2".to_string()),
        ]))),
        (101, None),
        (102, Some(JsonField::Object(vec![]))),
        (103, Some(JsonField::Array(vec![JsonField::Str("pid2".to_string())]))),
    ]);
    assert_eq!(
        posts,
        vec![("pid1".to_string(), 100), ("pid2".to_string(), 100), ("pid2".to_string(), 103)]
    );
    let emoticons = vec!["https://face.t.sinajs.cn/doge.png".to_string()];
    // a later index entry for the same key wins
    assert_eq!(classify_picture(&"pid2".to_string(), &"u".to_string(), &posts, &avatars, &emoticons), PictureOwner::Post(103));
    assert_eq!(classify_picture(&"pid1".to_string(), &"u".to_string(), &posts, &avatars, &emoticons), PictureOwner::Post(100));
    assert_eq!(classify_picture(&"z".to_string(), &"https://a.cn/p.jpg".to_string(), &posts, &avatars, &emoticons), PictureOwner::Avatar(8));
    assert_eq!(classify_picture(&"z".to_string(), &"https://a.cn/h.jpg".to_string(), &posts, &avatars, &emoticons), PictureOwner::Avatar(7));
    assert_eq!(classify_picture(&"z".to_string(), &"https://face.t.sinajs.cn/doge.png".to_string(), &posts, &avatars, &emoticons), PictureOwner::Emoji);
    assert_eq!(classify_picture(&"z".to_string(), &"https://b.cn/q.png".to_string(), &posts, &avatars, &emoticons), PictureOwner::Unknown);
}

fn emoji(url: &str) -> JsonField {
    JsonField::Object(vec![
        ("phrase".to_string(), JsonField::Str("[x]".to_string())),
        ("url".to_string(), JsonField::Str(url.to_string())),
    ])
}

#[test]
fn emoticon_file() {
    let json = JsonField::Object(vec![
        ("g1".to_string(), JsonField::Object(vec![
            ("a".to_string(), JsonField::Array(vec![emoji("u1"), emoji("u2")])),
            ("b".to_string(), JsonField::Array(vec![])),
        ])),
        ("g2".to_string(), JsonField::Object(vec![
            ("c".to_string(), JsonField::Array(vec![emoji("u3")])),
        ])),
    ]);
    assert_eq!(emoticon_urls(&json), Ok(vec!["u1".to_string(), "u2".to_string(), "u3".to_string()]));
    let bad = JsonField::Object(vec![("g".to_string(), JsonField::Array(vec![]))]);
    assert_eq!(emoticon_urls(&bad), Err(EmoticonShapeError));
    let no_url = JsonField::Object(vec![
        ("g".to_string(), JsonField::Object(vec![("a".to_string(), JsonField::Array(vec![JsonField::Null]))])),
    ]);
    assert_eq!(emoticon_urls(&no_url), Err(EmoticonShapeError));
    assert_eq!(emoticon_urls(&JsonField::Array(vec![])), Err(EmoticonShapeError));
}

#[test]
fn picture_pages() {
    assert_eq!(picture_page_sql(0), "SELECT url, id FROM picture_blob LIMIT 1000 OFFSET 0;");
    assert_eq!(picture_page_sql(2), "SELECT url, id FROM picture_blob LIMIT 1000 OFFSET 2000;");
}
