use weiback_rs::json_record::JsonField;
use weiback_rs::post_pictures::{get_avatar_url, pic_ids_to_urls, select_pic_url, PostPictures};

fn o(members: Vec<(&str, JsonField)>) -> JsonField {
    JsonField::Object(members.into_iter().map(|(k, v)| (k.to_string(), v)).collect())
}

fn s(x: &str) -> JsonField {
    JsonField::Str(x.to_string())
}

fn info(sizes: &[&str]) -> JsonField {
    o(sizes.iter().map(|sz| (*sz, o(vec![("url", s(&format!("https://p/{sz}.jpg")))]))).collect())
}

#[test]
fn sizes_tried_best_first() {
    let i = info(&["thumbnail", "bmiddle", "large", "original", "largest", "mw2000"]);
    assert_eq!(select_pic_url(&i, 2), Some("https://p/mw2000.jpg".to_string()));
    assert_eq!(select_pic_url(&i, 1), Some("https://p/large.jpg".to_string()));
    // the lowest definition's first size is misspelled, so `bmiddle` is found first
    assert_eq!(select_pic_url(&i, 0), Some("https://p/bmiddle.jpg".to_string()));
    let only_thumb = info(&["thumbnail"]);
    assert_eq!(select_pic_url(&only_thumb, 0), None);
    assert_eq!(select_pic_url(&only_thumb, 1), Some("https://p/thumbnail.jpg".to_string()));
    assert_eq!(select_pic_url(&JsonField::Null, 1), None);
    // the first size present decides, even without a URL
    let no_url = o(vec![("mw2000", o(vec![])), ("largest", o(vec![("url", s("u"))]))]);
    assert_eq!(select_pic_url(&no_url, 2), None);
}

#[test]
fn urls_of_picture_ids() {
    let infos = o(vec![("a", info(&["large"])), ("b", info(&["largest"]))]);
    let ids = JsonField::Array(vec![s("a"), JsonField::PosInt(1), s("missing"), s("b")]);
    assert_eq!(
        pic_ids_to_urls(&ids, &infos, 1),
        vec!["https://p/large.jpg".to_string(), "https://p/largest.jpg".to_string()]
    );
    assert_eq!(pic_ids_to_urls(&s("a"), &infos, 1), Vec::<String>::new());
}

#[test]
fn reposted_pictures_follow() {
    let inner = PostPictures {
        pic_ids: Some(JsonField::Array(vec![s("b")])),
        pic_infos: Some(o(vec![("b", info(&["large"]))])),
        retweeted_status: None,
    };
    let outer = PostPictures {
        pic_ids: Some(JsonField::Array(vec![s("a")])),
        pic_infos: Some(o(vec![("a", info(&["large"]))])),
        retweeted_status: Some(Box::new(inner)),
    };
    assert_eq!(
        outer.extract_pic_urls(1),
        vec!["https://p/large.jpg".to_string(), "https://p/large.jpg".to_string()]
    );
    let none = PostPictures { pic_ids: None, pic_infos: None, retweeted_status: None };
    assert!(none.extract_pic_urls(0).is_empty());
}

#[test]
fn avatar_of_post_user() {
    let post = o(vec![("user", o(vec![("avatar_hd", s("https://hd")), ("profile_image_url", s("https://p"))]))]);
    assert_eq!(get_avatar_url(&post, 2), Some("https://hd".to_string()));
    assert_eq!(get_avatar_url(&post, 0), Some("https://p".to_string()));
    assert_eq!(get_avatar_url(&post, 1), None);
    assert_eq!(get_avatar_url(&JsonField::Null, 1), None);
}
