use weiback_rs::html_text::TextPatterns;
use weiback_rs::json_record::JsonField;
use weiback_rs::url_struct::{cards_for_links, claim_cards, share_cards, short_url, CardError};

fn obj(members: Vec<(&str, JsonField)>) -> JsonField {
    JsonField::Object(members.into_iter().map(|(k, v)| (k.to_string(), v)).collect())
}

fn s(text: &str) -> JsonField {
    JsonField::Str(text.to_string())
}

fn card(short: &str, title: &str) -> JsonField {
    obj(vec![("short_url", s(short)), ("url_title", s(title))])
}

fn title_of(card: &JsonField) -> String {
    match card {
        JsonField::Object(ms) => match ms.iter().find(|(k, _)| k == "url_title") {
            Some((_, JsonField::Str(t))) => t.clone(),
            _ => String::new(),
        },
        _ => String::new(),
    }
}

fn titles(v: &Option<JsonField>) -> Option<Vec<String>> {
    match v {
        Some(JsonField::Array(items)) => Some(items.iter().map(title_of).collect()),
        Some(_) => Some(vec!["<not an array>".to_string()]),
        None => None,
    }
}

#[test]
fn short_url_reads_the_member() {
    let c = card("http://t.cn/A1", "a");
    assert_eq!(short_url(&c).map(|x| x.as_str()), Some("http://t.cn/A1"));
    let no_str = obj(vec![("short_url", JsonField::PosInt(3))]);
    assert_eq!(short_url(&no_str), None);
    assert_eq!(short_url(&s("http://t.cn/A1")), None);
}

#[test]
fn cards_follow_link_order_and_last_card_wins() {
    let cards = vec![
        card("http://t.cn/A1", "first a"),
        card("http://t.cn/B2", "b"),
        card("http://t.cn/A1", "second a"),
    ];
    let urls = vec![
        "http://t.cn/B2".to_string(),
        "http://t.cn/Z9".to_string(),
        "http://t.cn/A1".to_string(),
        "http://t.cn/B2".to_string(),
    ];
    let got: Vec<String> = cards_for_links(&cards, &urls).iter().map(title_of).collect();
    assert_eq!(got, vec!["b", "second a", "b"]);
}

#[test]
fn cards_are_shared_by_links() {
    let p = TextPatterns::new().unwrap();
    let cards = JsonField::Array(vec![card("http://t.cn/A1", "a"), card("http://t.cn/B2", "b")]);
    let (mine, theirs) = share_cards(
        &p,
        Some(cards),
        "see http://t.cn/A1 now",
        Some(JsonField::Array(vec![card("http://t.cn/OLD", "old")])),
        "http://t.cn/B2 here",
    );
    assert_eq!(titles(&mine), Some(vec!["a".to_string()]));
    assert_eq!(titles(&theirs), Some(vec!["b".to_string()]));
}

#[test]
fn without_links_the_post_loses_its_cards_and_the_retweet_keeps_its_own() {
    let p = TextPatterns::new().unwrap();
    let cards = JsonField::Array(vec![card("http://t.cn/A1", "a")]);
    let old = Some(JsonField::Array(vec![card("http://t.cn/OLD", "old")]));
    let (mine, theirs) = share_cards(&p, Some(cards), "no link", old, "none either");
    assert_eq!(titles(&mine), None);
    assert_eq!(titles(&theirs), Some(vec!["old".to_string()]));
}

#[test]
fn cards_that_are_not_a_list_are_dropped() {
    let p = TextPatterns::new().unwrap();
    let (mine, theirs) =
        share_cards(&p, Some(s("odd")), "http://t.cn/A1", None, "http://t.cn/A1");
    assert_eq!(titles(&mine), None);
    assert_eq!(titles(&theirs), None);
}

fn names(v: &[JsonField]) -> Vec<String> {
    v.iter().map(title_of).collect()
}

#[test]
fn retweet_claims_its_cards_first() {
    let p = TextPatterns::new().unwrap();
    let cards = vec![card("http://t.cn/A1", "a"), card("http://t.cn/B2", "b")];
    let (mine, theirs) = claim_cards(
        &p,
        &cards,
        Some("http://t.cn/A1 http://t.cn/B2"),
        Some("http://t.cn/A1"),
    )
    .unwrap();
    assert_eq!(names(&theirs), vec!["a"]);
    assert_eq!(names(&mine), vec!["b"]);
}

#[test]
fn a_card_is_claimed_once() {
    let p = TextPatterns::new().unwrap();
    let cards = vec![card("http://t.cn/A1", "first"), card("http://t.cn/A1", "last")];
    let (mine, theirs) =
        claim_cards(&p, &cards, Some("http://t.cn/A1 and http://t.cn/A1"), Some("none")).unwrap();
    assert!(theirs.is_empty());
    assert_eq!(names(&mine), vec!["last"]);
}

#[test]
fn claiming_needs_short_links_and_texts() {
    let p = TextPatterns::new().unwrap();
    let bad = vec![card("http://t.cn/A1", "a"), obj(vec![("url_title", s("x"))])];
    assert_eq!(
        claim_cards(&p, &bad, Some("t"), Some("t")).unwrap_err(),
        CardError::NoShortLink
    );
    let good = vec![card("http://t.cn/A1", "a")];
    assert_eq!(claim_cards(&p, &good, Some("t"), None).unwrap_err(), CardError::NoText);
    assert_eq!(claim_cards(&p, &good, None, Some("t")).unwrap_err(), CardError::NoText);
    assert_eq!(claim_cards(&p, &bad, None, None).unwrap_err(), CardError::NoShortLink);
}
