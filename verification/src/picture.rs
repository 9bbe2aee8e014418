//! Pictures referenced by posts: their URLs, file names and ids.

use vstd::prelude::*;
use vstd::string::*;
use crate::strings::{
    find_last, head_before, head_of, is_head_before, is_tail_after, lacks, lemma_head_of,
    lemma_tail_of, tail_after, tail_of,
};

verus! {

/// The URL with its query part (from the first `?`) removed.
pub open spec fn spec_strip_url_queries(url: Seq<char>) -> Seq<char> {
    head_of(url, '?')
}

/// The file name of a picture URL: the last path segment, without queries.
pub open spec fn spec_pic_url_to_file(url: Seq<char>) -> Seq<char> {
    head_of(tail_of(url, '/'), '?')
}

/// A picture URL names a file with an extension.
pub open spec fn has_extension(url: Seq<char>) -> bool {
    !lacks(spec_pic_url_to_file(url), '.')
}

/// The id of a picture: its file name up to the last `.`.
pub open spec fn spec_pic_url_to_id(url: Seq<char>) -> Seq<char> {
    let file = spec_pic_url_to_file(url);
    file.take(file.len() - tail_of(file, '.').len() - 1)
}

/// Removes the query part of a URL.
pub fn strip_url_queries(url: &str) -> (r: &str)
    ensures
        r@ == spec_strip_url_queries(url@),
{
    head_before(url, '?')
}

/// The file name that a picture URL points at.
pub fn pic_url_to_file(url: &str) -> (r: &str)
    ensures
        r@ == spec_pic_url_to_file(url@),
{
    let last = tail_after(url, '/');
    head_before(last, '?')
}

/// The id of a picture: its file name without the extension.
pub fn pic_url_to_id(url: &str) -> (r: &str)
    requires
        has_extension(url@),
    ensures
        r@ == spec_pic_url_to_id(url@),
{
    let file = pic_url_to_file(url);
    match find_last(file, '.') {
        Some(i) => {
            proof {
                lemma_tail_of(file@, '.');
                assert(is_tail_after(file@, '.', file@.skip(i + 1)));
            }
            file.substring_char(0, i)
        },
        None => {
            proof {
                assert(false);
            }
            file
        },
    }
}

/// Which role a picture plays in a post or for a user.
#[derive(Debug, Clone, PartialEq, Eq, Hash)]
pub enum PictureType {
    InPost { url: String, post_id: i64 },
    Avatar { url: String, user_id: i64 },
    Emoji { url: String },
    Temporary { url: String },
}

/// A picture to fetch: its URL (queries removed) and what it belongs to.
#[derive(Debug, Clone, PartialEq, Eq, Hash)]
pub enum Picture {
    InPost(String, i64),
    Avatar(String, i64),
    Emoji(String),
    Tmp(String),
}

impl Picture {
    /// The URL a picture was made with.
    pub open spec fn spec_url(&self) -> Seq<char> {
        match self {
            Picture::InPost(url, _) => url@,
            Picture::Avatar(url, _) => url@,
            Picture::Emoji(url) => url@,
            Picture::Tmp(url) => url@,
        }
    }

    /// A picture that appears in post `post_id`.
    pub fn in_post(url: &str, post_id: i64) -> (res: Self)
        ensures
            res matches Picture::InPost(u, p) && u@ == spec_strip_url_queries(url@) && p == post_id,
    {
        let url = String::from_str(strip_url_queries(url));
        Picture::InPost(url, post_id)
    }

    /// The avatar of user `uid`.
    pub fn avatar(url: &str, uid: i64) -> (res: Self)
        ensures
            res matches Picture::Avatar(u, i) && u@ == spec_strip_url_queries(url@) && i == uid,
    {
        let url = String::from_str(strip_url_queries(url));
        Picture::Avatar(url, uid)
    }

    /// An emoji picture.
    pub fn emoji(url: &str) -> (res: Self)
        ensures
            res matches Picture::Emoji(u) && u@ == spec_strip_url_queries(url@),
    {
        let url = String::from_str(strip_url_queries(url));
        Picture::Emoji(url)
    }

    /// A picture that is only shown once and not kept.
    pub fn tmp(url: &str) -> (res: Self)
        ensures
            res matches Picture::Tmp(u) && u@ == spec_strip_url_queries(url@),
    {
        let url = String::from_str(strip_url_queries(url));
        Picture::Tmp(url)
    }

    /// Whether this picture is a temporary one.
    pub fn is_tmp(&self) -> (b: bool)
        ensures
            b == (self is Tmp),
    {
        match self {
            Picture::Tmp(_) => true,
            _ => false,
        }
    }

    /// The URL of the picture.
    pub fn get_url(&self) -> (r: &str)
        ensures
            r@ == self.spec_url(),
    {
        match self {
            Picture::InPost(url, _) => url.as_str(),
            Picture::Avatar(url, _) => url.as_str(),
            Picture::Emoji(url) => url.as_str(),
            Picture::Tmp(url) => url.as_str(),
        }
    }

    /// The id of the picture, taken from its file name.
    pub fn get_id(&self) -> (r: &str)
        requires
            has_extension(self.spec_url()),
        ensures
            r@ == spec_pic_url_to_id(self.spec_url()),
    {
        pic_url_to_id(self.get_url())
    }

    /// The file name of the picture.
    pub fn get_file_name(&self) -> (r: &str)
        ensures
            r@ == spec_pic_url_to_file(self.spec_url()),
    {
        pic_url_to_file(self.get_url())
    }
}

/// Removing the queries of a URL twice is removing them once.
pub proof fn law_strip_url_queries_idempotent(url: Seq<char>)
    ensures
        spec_strip_url_queries(spec_strip_url_queries(url)) == spec_strip_url_queries(url),
{
    let r = spec_strip_url_queries(url);
    lemma_head_of(url, '?');
    lemma_head_of(r, '?');
    assert(r.take(r.len() as int) =~= r);
    assert(is_head_before(r, '?', r));
}

/// A picture's file name holds neither `/` nor `?`, and ends the URL's path.
pub proof fn law_pic_file_name_is_plain(url: Seq<char>)
    ensures
        lacks(spec_pic_url_to_file(url), '/'),
        lacks(spec_pic_url_to_file(url), '?'),
        spec_pic_url_to_file(url).is_prefix_of(tail_of(url, '/')),
{
    let t = tail_of(url, '/');
    lemma_tail_of(url, '/');
    lemma_head_of(t, '?');
}

/// A picture's id, a dot, and the extension give back its file name.
pub proof fn law_pic_id_then_extension(url: Seq<char>)
    requires
        has_extension(url),
    ensures
        spec_pic_url_to_id(url) + seq!['.'] + tail_of(spec_pic_url_to_file(url), '.')
            == spec_pic_url_to_file(url),
        lacks(tail_of(spec_pic_url_to_file(url), '.'), '.'),
{
    let f = spec_pic_url_to_file(url);
    let t = tail_of(f, '.');
    lemma_tail_of(f, '.');
    let id = spec_pic_url_to_id(url);
    assert(t.len() < f.len()) by {
        if t.len() == f.len() {
            assert(f.skip(0) =~= f);
            assert(t =~= f);
        }
    }
    assert(id + seq!['.'] + t =~= f);
}

/// Removing the queries first does not change the file name, as long as
/// no `/` follows the first `?`.
pub proof fn law_file_name_ignores_queries(url: Seq<char>)
    requires
        lacks(url.skip(spec_strip_url_queries(url).len() as int), '/'),
    ensures
        spec_pic_url_to_file(spec_strip_url_queries(url)) == spec_pic_url_to_file(url),
{
    let h = spec_strip_url_queries(url);
    lemma_head_of(url, '?');
    let r = url.skip(h.len() as int);
    assert(url =~= h + r);
    let t = tail_of(h, '/');
    lemma_tail_of(h, '/');
    let tr = t + r;
    assert(tr =~= url.skip(url.len() - tr.len()));
    assert(lacks(tr, '/')) by {
        assert forall|j: int| 0 <= j < tr.len() implies tr[j] != '/' by {
            if j >= t.len() {
                assert(tr[j] == r[j - t.len()]);
            }
        }
    }
    if tr.len() < url.len() {
        assert(url[url.len() - tr.len() - 1] == h[h.len() - t.len() - 1]);
    }
    assert(is_tail_after(url, '/', tr));
    lemma_tail_of(url, '/');
    assert(lacks(t, '?')) by {
        assert forall|j: int| 0 <= j < t.len() implies t[j] != '?' by {
            assert(t[j] == h[h.len() - t.len() + j]);
        }
    }
    assert(tr.take(t.len() as int) =~= t);
    if r.len() > 0 {
        assert(tr[t.len() as int] == url[h.len() as int]);
    }
    assert(is_head_before(tr, '?', t));
    lemma_head_of(tr, '?');
    assert(t.take(t.len() as int) =~= t);
    assert(is_head_before(t, '?', t));
    lemma_head_of(t, '?');
}

} // verus!
