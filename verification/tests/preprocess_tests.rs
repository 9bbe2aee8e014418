use weiback_rs::json_record::JsonField;
use weiback_rs::preprocess::{get_member, preprocess_action, PreprocessAction, PreprocessError};

fn obj(members: Vec<(&str, JsonField)>) -> JsonField {
    JsonField::Object(members.into_iter().map(|(k, v)| (k.to_string(), v)).collect())
}

fn s(text: &str) -> JsonField {
    JsonField::Str(text.to_string())
}

#[test]
fn hidden_author_and_notice_mark_client_only() {
    let post = obj(vec![("text_raw", s("该内容请至手机客户端查看>>"))]);
    assert_eq!(preprocess_action(&post), Ok(PreprocessAction::MarkClientOnly));
    let post = obj(vec![("user", JsonField::Null), ("text_raw", s("hello"))]);
    assert_eq!(preprocess_action(&post), Ok(PreprocessAction::Keep));
}

#[test]
fn hidden_author_needs_a_text() {
    let post = obj(vec![("text_raw", JsonField::PosInt(1))]);
    assert_eq!(preprocess_action(&post), Err(PreprocessError::TextNotString));
    assert_eq!(preprocess_action(&JsonField::Null), Err(PreprocessError::TextNotString));
}

#[test]
fn long_posts_fetch_their_text() {
    let user = obj(vec![("id", JsonField::PosInt(7))]);
    let post = obj(vec![
        ("user", user),
        ("isLongText", JsonField::Bool(true)),
        ("mblogid", s("Mxyz")),
        ("text_raw", s("该内容请至手机客户端查看")),
    ]);
    assert_eq!(
        preprocess_action(&post),
        Ok(PreprocessAction::FetchLongText("Mxyz".to_string()))
    );
}

#[test]
fn long_posts_need_an_mblogid() {
    let user = obj(vec![("id", JsonField::NegInt(-7))]);
    let post = obj(vec![("user", user), ("isLongText", JsonField::Bool(true))]);
    assert_eq!(preprocess_action(&post), Err(PreprocessError::MblogidNotString));
}

#[test]
fn short_posts_with_author_are_kept() {
    let user = obj(vec![("id", JsonField::Float)]);
    let post = obj(vec![("user", user), ("isLongText", JsonField::Bool(false))]);
    assert_eq!(preprocess_action(&post), Ok(PreprocessAction::Keep));
    let user = obj(vec![("id", s("7"))]);
    let post = obj(vec![("user", user), ("text_raw", s("plain"))]);
    assert_eq!(preprocess_action(&post), Ok(PreprocessAction::Keep));
}

#[test]
fn members_are_found_by_name() {
    let post = obj(vec![("a", JsonField::PosInt(1)), ("b", JsonField::Bool(true))]);
    assert!(matches!(get_member(&post, "b"), Some(JsonField::Bool(true))));
    assert!(get_member(&post, "c").is_none());
    assert!(get_member(&JsonField::Null, "a").is_none());
}
