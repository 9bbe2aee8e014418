//! What a post fetched from the web needs before it is stored: a post whose
//! author is hidden may be one that only the phone client shows, and a long
//! post's full text is fetched apart.

use vstd::prelude::*;
use crate::json_record::{
    first_key_index, json_view, lemma_first_index, lemma_object_view, members_view, JsonField,
    JsonView,
};
use crate::mobile::v_get;
use crate::post_urls::{is_client_only, CLIENT_ONLY_NOTICE};

verus! {

/// What to do with a post before storing it.
#[derive(Debug, PartialEq, Eq)]
pub enum PreprocessAction {
    /// Mark it as a post that only the phone client shows.
    MarkClientOnly,
    /// Fetch the full text of the post with this `mblogid`.
    FetchLongText(String),
    /// Store it as it is.
    Keep,
}

/// A `PreprocessAction` as a mathematical value.
pub enum ActionView {
    MarkClientOnly,
    FetchLongText(Seq<char>),
    Keep,
}

/// The mathematical value of `a`.
pub open spec fn action_view(a: PreprocessAction) -> ActionView {
    match a {
        PreprocessAction::MarkClientOnly => ActionView::MarkClientOnly,
        PreprocessAction::FetchLongText(m) => ActionView::FetchLongText(m@),
        PreprocessAction::Keep => ActionView::Keep,
    }
}

/// Why a post cannot be preprocessed.
#[derive(Debug, Clone, Copy, PartialEq, Eq)]
pub enum PreprocessError {
    /// Its `text_raw` is not a string.
    TextNotString,
    /// Its `mblogid` is not a string.
    MblogidNotString,
}

/// The string `v[key]` holds, if it holds one.
pub open spec fn str_member(v: JsonView, key: Seq<char>) -> Option<Seq<char>> {
    match v_get(v, key) {
        Some(JsonView::Str(s)) => Some(s),
        _ => None,
    }
}

/// Whether `v` is a JSON number.
pub open spec fn is_number(v: JsonView) -> bool {
    v is PosInt || v is NegInt || v is Float
}

/// Whether the post names its author by a numeric `user.id`.
pub open spec fn has_author_id(post: JsonView) -> bool {
    match v_get(post, "user"@) {
        Some(u) => match v_get(u, "id"@) {
            Some(id) => is_number(id),
            None => false,
        },
        None => false,
    }
}

/// What to do with `post`: without an author id, mark it when its text
/// begins with the phone-client notice; with one, fetch its full text when
/// `isLongText` is `true`.
pub open spec fn spec_preprocess_action(post: JsonView) -> Result<ActionView, PreprocessError> {
    if !has_author_id(post) {
        match str_member(post, "text_raw"@) {
            Some(t) => if CLIENT_ONLY_NOTICE@.len() <= t.len() && t.take(
                CLIENT_ONLY_NOTICE@.len() as int,
            ) == CLIENT_ONLY_NOTICE@ {
                Ok(ActionView::MarkClientOnly)
            } else {
                Ok(ActionView::Keep)
            },
            None => Err(PreprocessError::TextNotString),
        }
    } else if v_get(post, "isLongText"@) == Some(JsonView::Bool(true)) {
        match str_member(post, "mblogid"@) {
            Some(m) => Ok(ActionView::FetchLongText(m)),
            None => Err(PreprocessError::MblogidNotString),
        }
    } else {
        Ok(ActionView::Keep)
    }
}

/// The member `key` of `v`, when `v` is an object that has one.
pub fn get_member<'a>(v: &'a JsonField, key: &str) -> (res: Option<&'a JsonField>)
    ensures
        match res {
            Some(m) => v_get(json_view(*v), key@) == Some(json_view(*m)),
            None => v_get(json_view(*v), key@) is None,
        },
{
    match v {
        JsonField::Object(ms) => {
            proof {
                lemma_object_view(*ms);
                lemma_first_index(members_view(ms@), key@);
            }
            match first_key_index(ms, key) {
                Some(i) => {
                    assert(members_view(ms@)[i as int].1 == json_view(ms@[i as int].1));
                    Some(&ms[i].1)
                },
                None => None,
            }
        },
        _ => None,
    }
}

/// The string `v[key]` holds.
fn get_str<'a>(v: &'a JsonField, key: &str) -> (res: Option<&'a String>)
    ensures
        match res {
            Some(s) => str_member(json_view(*v), key@) == Some(s@),
            None => str_member(json_view(*v), key@) is None,
        },
{
    match get_member(v, key) {
        Some(JsonField::Str(s)) => Some(s),
        _ => None,
    }
}

/// What to do with `post` before storing it.
pub fn preprocess_action(post: &JsonField) -> (res: Result<PreprocessAction, PreprocessError>)
    ensures
        match res {
            Ok(a) => spec_preprocess_action(json_view(*post)) == Ok::<ActionView, PreprocessError>(
                action_view(a),
            ),
            Err(e) => spec_preprocess_action(json_view(*post)) == Err::<ActionView, PreprocessError>(
                e,
            ),
        },
{
    let has_id = match get_member(post, "user") {
        Some(u) => match get_member(u, "id") {
            Some(JsonField::PosInt(_)) | Some(JsonField::NegInt(_)) | Some(JsonField::Float) => true,
            _ => false,
        },
        None => false,
    };
    if !has_id {
        match get_str(post, "text_raw") {
            Some(t) => {
                if is_client_only(false, t.as_str()) {
                    Ok(PreprocessAction::MarkClientOnly)
                } else {
                    Ok(PreprocessAction::Keep)
                }
            },
            None => Err(PreprocessError::TextNotString),
        }
    } else {
        let long = match get_member(post, "isLongText") {
            Some(JsonField::Bool(b)) => *b,
            _ => false,
        };
        if long {
            match get_str(post, "mblogid") {
                Some(m) => Ok(PreprocessAction::FetchLongText(m.clone())),
                None => Err(PreprocessError::MblogidNotString),
            }
        } else {
            Ok(PreprocessAction::Keep)
        }
    }
}

} // verus!
