//! The web API addresses that posts are fetched from and removed with.

use vstd::prelude::*;
use vstd::string::*;
use crate::search_args::{spec_attach_args, SearchArgs};
use crate::strings::{char_vec, decimal, push_decimal, push_signed_decimal, signed_decimal};

verus! {

/// The favorites of an account.
pub const FAVORITES_ALL_FAV_API: &'static str = "https://weibo.com/ajax/favorites/all_fav";

/// A post on the mobile site.
pub const MOBILE_POST_API: &'static str = "https://m.weibo.cn/statuses/show?id=";

/// The posts of a user.
pub const POST_SEARCH_API: &'static str = "https://weibo.com/ajax/statuses/searchProfile";

/// Removing favorites.
pub const DESTROY_FAVORITES: &'static str = "https://weibo.com/ajax/statuses/destoryFavorites";

/// The address that removes favorites.
pub fn get_unfavorite_url() -> (res: String)
    ensures
        res@ == DESTROY_FAVORITES@,
{
    String::from_str(DESTROY_FAVORITES)
}

/// The address of page `page` of the posts of user `uid` that `args`
/// selects.
pub fn get_posts_download_url(uid: i64, page: u32, args: &SearchArgs) -> (res: String)
    ensures
        res@ == spec_attach_args(
            *args,
            POST_SEARCH_API@ + "?uid="@ + signed_decimal(uid as int) + "&page="@ + decimal(
                page as nat,
            ),
        ),
{
    let mut url = String::from_str(POST_SEARCH_API);
    url.append("?uid=");
    push_signed_decimal(&mut url, uid);
    url.append("&page=");
    push_decimal(&mut url, page as u64);
    args.attach_args(url)
}

/// The address of page `page` of the favorites of user `uid`.
pub fn get_favorite_download_url(uid: i64, page: u32) -> (res: String)
    ensures
        res@ == FAVORITES_ALL_FAV_API@ + "?uid="@ + signed_decimal(uid as int) + "&page="@
            + decimal(page as nat),
{
    let mut url = String::from_str(FAVORITES_ALL_FAV_API);
    url.append("?uid=");
    push_signed_decimal(&mut url, uid);
    url.append("&page=");
    push_decimal(&mut url, page as u64);
    url
}

/// The address of the post `mblogid` on the mobile site.
pub fn get_mobile_download_url(mblogid: &str) -> (res: String)
    ensures
        res@ == MOBILE_POST_API@ + mblogid@,
{
    let mut url = String::from_str(MOBILE_POST_API);
    url.append(mblogid);
    url
}

/// What a post says when it can only be read in the mobile app.
pub const CLIENT_ONLY_NOTICE: &'static str = "该内容请至手机客户端查看";

/// Whether `s` begins with `prefix`.
pub fn starts_with(s: &str, prefix: &str) -> (b: bool)
    ensures
        b == (prefix@.len() <= s@.len() && s@.take(prefix@.len() as int) == prefix@),
{
    let cs = char_vec(s);
    let ps = char_vec(prefix);
    if ps.len() > cs.len() {
        return false;
    }
    let mut i: usize = 0;
    while i < ps.len()
        invariant
            ps@.len() <= cs@.len(),
            cs@ == s@,
            ps@ == prefix@,
            i <= ps@.len(),
            forall|k: int| 0 <= k < i ==> cs@[k] == ps@[k],
        decreases ps.len() - i,
    {
        if cs[i] != ps[i] {
            assert(s@.take(prefix@.len() as int)[i as int] != prefix@[i as int]);
            return false;
        }
        i = i + 1;
    }
    assert(s@.take(prefix@.len() as int) =~= prefix@);
    true
}

/// A post can only be read in the mobile app: it has no user and its text
/// is the notice that says so.
pub fn is_client_only(has_user: bool, text_raw: &str) -> (b: bool)
    ensures
        b == (!has_user && CLIENT_ONLY_NOTICE@.len() <= text_raw@.len() && text_raw@.take(
            CLIENT_ONLY_NOTICE@.len() as int,
        ) == CLIENT_ONLY_NOTICE@),
{
    !has_user && starts_with(text_raw, CLIENT_ONLY_NOTICE)
}

} // verus!
