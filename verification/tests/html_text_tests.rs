use weiback_rs::html_text::{
    join_resource_path, splice, trans_topic, trans_url, trans_user, EmojiMap, TextError,
    TextPatterns, UrlEntry,
};

const ICON: &str = "https://h5.sinaimg.cn/upload/2015/09/25/3/timeline_card_small_web_default.png";

fn link(url: &str, title: &str) -> String {
    format!(
        "<a class=\"bk-link\" target=\"_blank\" href=\"{url}\"><img class=\"bk-icon-link\" src=\"{ICON}\"/>{title}</a>"
    )
}

fn entry(short: &str, title: Option<&str>, long: Option<&str>) -> UrlEntry {
    UrlEntry {
        short_url: Some(short.to_string()),
        url_title: title.map(|t| t.to_string()),
        long_url: long.map(|l| l.to_string()),
    }
}

fn doge_map() -> EmojiMap {
    let mut m = EmojiMap::new();
    m.insert("[doge]".to_string(), "https://face.t.sinajs.cn/t4/doge.png?x=1".to_string());
    m
}

#[test]
fn emoji_map_insert_and_get() {
    let mut m = EmojiMap::new();
    assert_eq!(m.len(), 0);
    m.insert("[a]".to_string(), "u1".to_string());
    m.insert("[b]".to_string(), "u2".to_string());
    m.insert("[a]".to_string(), "u3".to_string());
    assert_eq!(m.len(), 2);
    assert_eq!(m.get(&"[a]".to_string()), Some(&"u3".to_string()));
    assert_eq!(m.get(&"[b]".to_string()), Some(&"u2".to_string()));
    assert_eq!(m.get(&"[c]".to_string()), None);
}

#[test]
fn url_with_entry_and_default_title() {
    let entries = vec![
        entry("http://t.cn/other", Some("X"), Some("https://x")),
        entry("http://t.cn/abc12", Some("Title"), Some("https://example.com/long")),
        entry("http://t.cn/abc12", Some("Second"), Some("https://second")),
    ];
    assert_eq!(
        trans_url(&"http://t.cn/abc12".to_string(), &entries),
        link("https://example.com/long", "Title")
    );
    assert_eq!(
        trans_url(&"http://t.cn/zzzzz".to_string(), &entries),
        link("http://t.cn/zzzzz", "网页链接")
    );
}

#[test]
fn user_and_topic_html() {
    assert_eq!(trans_user("@bob"), "<a class=\"bk-user\" href=\"https://weibo.com/n/bob\">@bob</a>");
    assert_eq!(
        trans_topic("#tp#"),
        "<a class =\"bk-link\" href=\"https://s.weibo.com/weibo?q=#tp#\" target=\"_blank\">#tp#</a>"
    );
}

#[test]
fn resource_paths() {
    assert_eq!(join_resource_path("", '/', "a.png"), "a.png");
    assert_eq!(join_resource_path("res/", '/', "a.png"), "res/a.png");
    assert_eq!(join_resource_path("res", '/', "a.png"), "res/a.png");
    assert_eq!(join_resource_path("C:\\res", '\\', "a.png"), "C:\\res\\a.png");
}

#[test]
fn splice_interleaves() {
    let pieces = vec!["a".to_string(), "b".to_string(), "c".to_string()];
    let seps = vec!["1".to_string(), "2".to_string()];
    assert_eq!(splice(&pieces, &seps), "a1b2c");
    assert_eq!(splice(&vec!["only".to_string()], &vec![]), "only");
}

#[test]
fn trans_text_renders_every_kind() {
    let p = TextPatterns::new().expect("the patterns compile");
    let entries = vec![entry("http://t.cn/abc12", Some("Title"), Some("https://example.com/long"))];
    let emojis = doge_map();
    let out = p
        .trans_text("hi\n@bob see http://t.cn/abc12 #tp# [doge]", &entries, &emojis, "res", '/')
        .unwrap();
    let expected = format!(
        "hi<br /><a class=\"bk-user\" href=\"https://weibo.com/n/bob\">@bob</a> see {} \
<a class =\"bk-link\" href=\"https://s.weibo.com/weibo?q=#tp#\" target=\"_blank\">#tp#</a> \
<img class=\"bk-emoji\" alt=\"[doge]\" title=\"[doge]\" src=\"res/doge.png\" />",
        link("https://example.com/long", "Title")
    );
    assert_eq!(out, expected);
}

#[test]
fn trans_text_leaves_email_tails_and_unknown_emojis() {
    let p = TextPatterns::new().unwrap();
    let out = p.trans_text("mail a@b.com [what]", &vec![], &EmojiMap::new(), "res", '/').unwrap();
    assert_eq!(out, "mail a@b.com [what]");
    assert_eq!(p.email_suffixes("x a@b.com y"), vec!["@b".to_string()]);
}

#[test]
fn trans_text_refuses_link_without_title() {
    let p = TextPatterns::new().unwrap();
    let entries = vec![entry("http://t.cn/abc12", None, Some("https://example.com/long"))];
    assert_eq!(
        p.trans_text("see http://t.cn/abc12", &entries, &EmojiMap::new(), "res", '/'),
        Err(TextError::UnrenderableLink)
    );
}

#[test]
fn extractors() {
    let p = TextPatterns::new().unwrap();
    assert_eq!(
        p.extract_urls("a http://t.cn/abc12 b https://t.cn/Xyz99"),
        vec!["http://t.cn/abc12".to_string(), "https://t.cn/Xyz99".to_string()]
    );
    assert_eq!(p.extract_emojis("[a]x[doge]"), vec!["[a]".to_string(), "[doge]".to_string()]);
    assert_eq!(
        p.extract_emoji_urls("[a]x[doge][doge]", &doge_map()),
        vec![
            "https://face.t.sinajs.cn/t4/doge.png?x=1".to_string(),
            "https://face.t.sinajs.cn/t4/doge.png?x=1".to_string()
        ]
    );
    assert_eq!(p.render_breaks("a\nb\n"), "a<br />b<br />");
}
