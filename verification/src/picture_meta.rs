//! Pictures as they are stored: what they belong to, and their rows.

use vstd::prelude::*;
use vstd::string::*;
use crate::picture::{has_extension, pic_url_to_id, spec_pic_url_to_id};

verus! {

/// What a downloaded picture belongs to, with its URL.
#[derive(Debug, Clone, PartialEq, Eq, Hash)]
pub enum PictureMeta {
    InPost { url: String, post_id: i64 },
    Avatar { url: String, user_id: i64 },
    Other { url: String },
}

/// Type code of an avatar in the picture table.
pub const PIC_TYPE_AVATAR: u8 = 0;

/// Type code of a picture in a post.
pub const PIC_TYPE_INPOST: u8 = 1;

/// Type code of an emoji or other picture.
pub const PIC_TYPE_EMOJI: u8 = 2;

impl PictureMeta {
    /// The URL of the picture.
    pub open spec fn spec_url(&self) -> Seq<char> {
        match self {
            PictureMeta::InPost { url, .. } => url@,
            PictureMeta::Avatar { url, .. } => url@,
            PictureMeta::Other { url } => url@,
        }
    }

    /// A picture of post `post_id`.
    pub fn in_post(url: String, post_id: i64) -> (res: Self)
        ensures
            res == (PictureMeta::InPost { url, post_id }),
    {
        PictureMeta::InPost { url, post_id }
    }

    /// The avatar of user `user_id`.
    pub fn avatar(url: String, user_id: i64) -> (res: Self)
        ensures
            res == (PictureMeta::Avatar { url, user_id }),
    {
        PictureMeta::Avatar { url, user_id }
    }

    /// Any other picture, such as an emoji.
    pub fn other(url: String) -> (res: Self)
        ensures
            res == (PictureMeta::Other { url }),
    {
        PictureMeta::Other { url }
    }

    /// The URL of the picture.
    pub fn url(&self) -> (r: &str)
        ensures
            r@ == self.spec_url(),
    {
        match self {
            PictureMeta::InPost { url, .. } => url.as_str(),
            PictureMeta::Avatar { url, .. } => url.as_str(),
            PictureMeta::Other { url } => url.as_str(),
        }
    }
}

/// A downloaded picture and its bytes.
#[derive(Debug, Clone)]
pub struct Picture {
    pub meta: PictureMeta,
    pub blob: Vec<u8>,
}

/// A row of the picture table: which post or user a picture belongs to.
#[derive(Debug, Clone, PartialEq, Eq)]
pub struct SqlPicture {
    pub id: String,
    pub uid: Option<i64>,
    pub post_id: Option<i64>,
    pub type_: u8,
}

/// A row of the picture blob table.
#[derive(Debug, Clone)]
pub struct SqlPictureBlob {
    pub url: String,
    pub id: String,
    pub blob: Vec<u8>,
}

impl SqlPicture {
    /// The row that records what a picture belongs to.
    pub fn from_meta(meta: &PictureMeta) -> (res: Self)
        requires
            has_extension(meta.spec_url()),
        ensures
            res.id@ == spec_pic_url_to_id(meta.spec_url()),
            match meta {
                PictureMeta::InPost { post_id, .. } => res.post_id == Some(*post_id)
                    && res.uid is None && res.type_ == PIC_TYPE_INPOST,
                PictureMeta::Avatar { user_id, .. } => res.uid == Some(*user_id)
                    && res.post_id is None && res.type_ == PIC_TYPE_AVATAR,
                PictureMeta::Other { .. } => res.uid is None && res.post_id is None
                    && res.type_ == PIC_TYPE_EMOJI,
            },
    {
        let id = String::from_str(pic_url_to_id(meta.url()));
        match meta {
            PictureMeta::InPost { post_id, .. } => SqlPicture {
                id,
                post_id: Some(*post_id),
                uid: None,
                type_: PIC_TYPE_INPOST,
            },
            PictureMeta::Avatar { user_id, .. } => SqlPicture {
                id,
                post_id: None,
                uid: Some(*user_id),
                type_: PIC_TYPE_AVATAR,
            },
            PictureMeta::Other { .. } => SqlPicture {
                id,
                post_id: None,
                uid: None,
                type_: PIC_TYPE_EMOJI,
            },
        }
    }
}

impl SqlPictureBlob {
    /// The blob row of a downloaded picture.
    pub fn from_picture(pic: Picture) -> (res: Self)
        requires
            has_extension(pic.meta.spec_url()),
        ensures
            res.url@ == pic.meta.spec_url(),
            res.id@ == spec_pic_url_to_id(pic.meta.spec_url()),
            res.blob@ == pic.blob@,
    {
        let url = String::from_str(pic.meta.url());
        let id = String::from_str(pic_url_to_id(pic.meta.url()));
        SqlPictureBlob { url, id, blob: pic.blob }
    }
}

/// A picture row's type code tells which owner it records.
pub proof fn law_sql_picture_owner_matches_type(row: SqlPicture, meta: PictureMeta)
    requires
        has_extension(meta.spec_url()),
        row.id@ == spec_pic_url_to_id(meta.spec_url()),
        match meta {
            PictureMeta::InPost { post_id, .. } => row.post_id == Some(post_id) && row.uid is None
                && row.type_ == PIC_TYPE_INPOST,
            PictureMeta::Avatar { user_id, .. } => row.uid == Some(user_id) && row.post_id is None
                && row.type_ == PIC_TYPE_AVATAR,
            PictureMeta::Other { .. } => row.uid is None && row.post_id is None && row.type_
                == PIC_TYPE_EMOJI,
        },
    ensures
        row.type_ == PIC_TYPE_INPOST <==> row.post_id is Some,
        row.type_ == PIC_TYPE_AVATAR <==> row.uid is Some,
        !(row.post_id is Some && row.uid is Some),
{
}

} // verus!
