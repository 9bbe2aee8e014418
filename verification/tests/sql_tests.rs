use weiback_rs::meta_data::{pic_ids_string, Post, PostUser};
use weiback_rs::sql_text::{save_post_sql, to_sql_str, InsertBuilder};
use weiback_rs::strings::{i64_text, u64_text};

fn sample_post() -> Post {
    Post {
        id: 1,
        visible: "{}".to_string(),
        created_at: "Mon".to_string(),
        mblogid: "M1".to_string(),
        user: None,
        text_raw: "it's".to_string(),
        text: "t".to_string(),
        attitudes_status: -3,
        share_repost_type: None,
        show_feed_repost: false,
        show_feed_comment: false,
        picture_viewer_sign: false,
        show_picture_viewer: false,
        source: "src".to_string(),
        favorited: true,
        can_edit: false,
        annotations: "null".to_string(),
        rid: None,
        cardid: None,
        pic_ids: Some(vec!["p1".to_string(), "p2".to_string()]),
        pic_infos: "{}".to_string(),
        geo: "null".to_string(),
        pic_num: Some(2),
        pic_focus_point: "null".to_string(),
        is_paid: false,
        pic_bg_new: None,
        topic_struct: "[]".to_string(),
        page_info: "null".to_string(),
        deleted: false,
        mark: None,
        tag_struct: "null".to_string(),
        title: "null".to_string(),
        mblog_vip_type: None,
        number_display_strategy: "null".to_string(),
        reposts_count: Some(0),
        comments_count: None,
        attitudes_count: None,
        continue_tag: "null".to_string(),
        mlevel: None,
        content_auth: None,
        is_show_bulletin: None,
        comment_manage_info: "null".to_string(),
        repost_type: None,
        url_struct: "[]".to_string(),
        retweeted_status: None,
        edit_count: None,
        mblogtype: None,
        region_name: Some("发布于 北京".to_string()),
        mix_media_info: "null".to_string(),
        text_length: None,
        is_long_text: false,
    }
}

fn sample_user() -> PostUser {
    PostUser {
        profile_url: "/u/1\"x".to_string(),
        planet_video: true,
        v_plus: 0,
        id: 123,
        pc_new: 7,
        screen_name: "名字".to_string(),
        profile_image_url: "https://a.cn/p.jpg".to_string(),
        verified: false,
        verified_type: -1,
        domain: "".to_string(),
        weihao: "".to_string(),
        verified_type_ext: Some(1),
        avatar_large: "https://a.cn/l.jpg".to_string(),
        avatar_hd: "https://a.cn/h.jpg".to_string(),
        follow_me: false,
        following: true,
        mbrank: 6,
        mbtype: 12,
        icon_list: "[]".to_string(),
    }
}

#[test]
fn quoting_doubles_single_quotes() {
    assert_eq!(to_sql_str("it's"), "'it''s'");
    assert_eq!(to_sql_str(""), "''");
    assert_eq!(to_sql_str("''"), "''''''");
    assert_eq!(to_sql_str("中文"), "'中文'");
}

#[test]
fn decimal_text() {
    assert_eq!(u64_text(0), "0");
    assert_eq!(u64_text(u64::MAX), "18446744073709551615");
    assert_eq!(i64_text(-3), "-3");
    assert_eq!(i64_text(i64::MIN), "-9223372036854775808");
    assert_eq!(i64_text(i64::MAX), "9223372036854775807");
}

#[test]
fn insert_builder_joins_columns() {
    let mut b = InsertBuilder::new();
    b.push("a", "1");
    b.push_opt("b", None);
    b.push_opt("c", Some("'x'".to_string()));
    assert_eq!(b.finish("INSERT INTO t ("), "INSERT INTO t (a,c) VALUES (1,'x')");
    assert_eq!(InsertBuilder::new().finish("H ("), "H () VALUES ()");
}

#[test]
fn pic_ids_are_bar_terminated() {
    assert_eq!(pic_ids_string(&vec!["p1".to_string(), "p2".to_string()]), "'p1|p2|'");
    assert_eq!(pic_ids_string(&vec![]), "''");
}

#[test]
fn post_sql() {
    let post = sample_post();
    let cols = [
        ("id", "1"),
        ("visible", "'{}'"),
        ("created_at", "'Mon'"),
        ("mblogid", "'M1'"),
        ("text_raw", "'it''s'"),
        ("text", "'t'"),
        ("attitudes_status", "-3"),
        ("showFeedRepost", "false"),
        ("showFeedComment", "false"),
        ("pictureViewerSign", "false"),
        ("showPictureViewer", "false"),
        ("source", "'src'"),
        ("favorited", "true"),
        ("can_edit", "false"),
        ("annotations", "'null'"),
        ("pic_ids", "'p1|p2|'"),
        ("pic_infos", "'{}'"),
        ("geo", "'null'"),
        ("pic_num", "2"),
        ("pic_focus_point", "'null'"),
        ("is_paid", "false"),
        ("topic_struct", "'[]'"),
        ("page_info", "'null'"),
        ("deleted", "false"),
        ("tag_struct", "'null'"),
        ("title", "'null'"),
        ("number_display_strategy", "'null'"),
        ("reposts_count", "0"),
        ("continue_tag", "'null'"),
        ("comment_manage_info", "'null'"),
        ("url_struct", "'[]'"),
        ("region_name", "'发布于 北京'"),
        ("mix_media_info", "'null'"),
        ("isLongText", "false"),
    ];
    let names: Vec<&str> = cols.iter().map(|c| c.0).collect();
    let values: Vec<&str> = cols.iter().map(|c| c.1).collect();
    let expected = format!(
        "INSERT OR IGNORE INTO fav_post ({}) VALUES ({})",
        names.join(","),
        values.join(",")
    );
    assert_eq!(post.to_sql(), expected);
}

#[test]
fn post_sql_with_user_and_repost() {
    let mut post = sample_post();
    post.user = Some(sample_user());
    let mut inner = sample_post();
    inner.id = 99;
    post.retweeted_status = Some(Box::new(inner));
    let sql = post.to_sql();
    assert!(sql.starts_with("INSERT OR IGNORE INTO fav_post (id,visible,created_at,mblogid,uid,text_raw,"));
    assert!(sql.contains(",url_struct,retweeted_status,region_name,"));
    assert!(sql.contains(") VALUES (1,'{}','Mon','M1',123,'it''s',"));
    assert!(sql.contains(",'[]',99,'发布于 北京',"));
}

#[test]
fn user_sql() {
    let user = sample_user();
    assert_eq!(
        user.to_sql(),
        "INSERT OR IGNORE INTO user (profile_url,planet_video,v_plus,id,pc_new,screen_name,\
profile_image_url,verified,verified_type,domain,weihao,verified_type_ext,avatar_large,avatar_hd,\
follow_me,following,mbrank,mbtype,icon_list) VALUES (\"/u/1\\\"x\",true,0,123,7,\"名字\",\
\"https://a.cn/p.jpg\",false,-1,\"\",\"\",1,\"https://a.cn/l.jpg\",\"https://a.cn/h.jpg\",\
false,true,6,12,'[]')"
    );
}

#[test]
fn save_post_statement() {
    let replace = save_post_sql(true);
    let ignore = save_post_sql(false);
    assert!(replace.starts_with("INSERT OR REPLACE INTO posts (id,mblogid,text_raw,"));
    assert!(ignore.starts_with("INSERT OR IGNORE INTO posts (id,"));
    assert!(ignore.ends_with("created_at_timestamp,created_at_tz)VALUES (?, ?, ?, ?, ?, ?, ?, ?, ?, ?, ?, ?, ?, ?, ?, ?, ?, ?, ?, ?, ?, ?, ?, ?, ?, ?, ?, ?, ?, ?, ?, ?, ?, ?, ?, ?, ?, ?, ?, ?, ?, ?, ?, ?, ?, ?, ?, ?, ?, ?, ?, ?, ?, ?, ?, ?, ?, ?, ?)"));
    assert_eq!(ignore.matches('?').count(), 59);
}

#[test]
fn posts_sql() {
    let mut posts = Vec::new();
    for id in [1u64, 2, 3] {
        let mut p = sample_post();
        p.id = id;
        posts.push(p);
    }
    for p in &posts {
        let sql = p.to_sql();
        assert!(sql.starts_with("INSERT OR IGNORE INTO fav_post (id,"));
        assert!(sql.contains(&format!(") VALUES ({},", p.id)));
    }
}

#[test]
fn author_adds_only_the_uid_column() {
    let without = sample_post().to_sql();
    let mut p = sample_post();
    p.user = Some(sample_user());
    let with = p.to_sql();
    assert!(without.starts_with("INSERT OR IGNORE INTO fav_post (id,visible,created_at,mblogid,text_raw,"));
    assert_eq!(
        with.replacen("mblogid,uid,", "mblogid,", 1).replacen("'M1',123,", "'M1',", 1),
        without
    );
}
