//! Users: as the web API describes them, and as the local database keeps
//! them.

use vstd::prelude::*;
use vstd::string::*;
use crate::picture::{spec_strip_url_queries, Picture};
use crate::strings::{push_signed_decimal, signed_decimal};

verus! {

/// A user as the web API describes them.
#[derive(Debug, Clone)]
pub struct User {
    pub id: i64,
    pub profile_url: String,
    pub screen_name: String,
    pub profile_image_url: String,
    pub avatar_large: String,
    pub avatar_hd: String,
    pub planet_video: bool,
    pub v_plus: i64,
    pub pc_new: i64,
    pub verified: bool,
    pub verified_type: i64,
    pub domain: String,
    pub weihao: String,
    pub verified_type_ext: Option<i64>,
    pub follow_me: bool,
    pub following: bool,
    pub mbrank: i64,
    pub mbtype: i64,
    /// The JSON text of the icon list, when there is one.
    pub icon_list: Option<String>,
    pub backedup: bool,
}

/// The avatar URL of `u` in definition `d`: 0 the profile image, 1 the
/// large avatar, 2 the HD one.
pub open spec fn avatar_url(u: User, d: u8) -> Seq<char> {
    if d == 0 {
        u.profile_image_url@
    } else if d == 1 {
        u.avatar_large@
    } else {
        u.avatar_hd@
    }
}

/// The API that describes a user.
pub const USER_INFO_API: &'static str = "https://weibo.com/ajax/profile/info";

impl User {
    /// The avatar picture of the user in definition `image_definition`
    /// (0 lowest, 1 middle, 2 highest).
    pub fn get_avatar_pic(&self, image_definition: u8) -> (res: Picture)
        requires
            image_definition <= 2,
        ensures
            res matches Picture::Avatar(u, i) && u@ == spec_strip_url_queries(
                avatar_url(*self, image_definition),
            ) && i == self.id,
    {
        if image_definition == 0 {
            Picture::avatar(self.profile_image_url.as_str(), self.id)
        } else if image_definition == 1 {
            Picture::avatar(self.avatar_large.as_str(), self.id)
        } else {
            Picture::avatar(self.avatar_hd.as_str(), self.id)
        }
    }

    /// The URL that describes the user `id`.
    pub fn get_download_url(id: i64) -> (res: String)
        ensures
            res@ == USER_INFO_API@ + "?uid="@ + signed_decimal(id as int),
    {
        let mut res = String::from_str(USER_INFO_API);
        res.append("?uid=");
        push_signed_decimal(&mut res, id);
        res
    }
}

/// A row of the users table.
#[derive(Debug, Clone, PartialEq, Eq)]
pub struct UserStorage {
    pub id: i64,
    pub screen_name: String,
    pub profile_image_url: String,
    pub avatar_large: String,
    pub avatar_hd: String,
    pub verified: bool,
    pub verified_type: i64,
    pub domain: String,
    pub follow_me: bool,
    pub following: bool,
}

/// `s` keeps the stored fields of `u`.
pub open spec fn stores(s: UserStorage, u: User) -> bool {
    &&& s.id == u.id
    &&& s.screen_name@ == u.screen_name@
    &&& s.profile_image_url@ == u.profile_image_url@
    &&& s.avatar_large@ == u.avatar_large@
    &&& s.avatar_hd@ == u.avatar_hd@
    &&& s.verified == u.verified
    &&& s.verified_type == u.verified_type
    &&& s.domain@ == u.domain@
    &&& s.follow_me == u.follow_me
    &&& s.following == u.following
}

impl UserStorage {
    /// The row that stores `u`.
    pub fn from_user(u: User) -> (res: Self)
        ensures
            stores(res, u),
    {
        UserStorage {
            id: u.id,
            screen_name: u.screen_name,
            profile_image_url: u.profile_image_url,
            avatar_large: u.avatar_large,
            avatar_hd: u.avatar_hd,
            verified: u.verified,
            verified_type: u.verified_type,
            domain: u.domain,
            follow_me: u.follow_me,
            following: u.following,
        }
    }
}

} // verus!
