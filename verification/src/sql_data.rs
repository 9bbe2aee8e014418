//! Rows of the posts and users tables, decoded from the JSON the web API
//! returns.

use vstd::prelude::*;
use crate::json_record::{
    bool_or_default, int_or_default, opt_int_or_default, opt_str_or_default, opt_view,
    str_or_default, JsonObject,
};

verus! {

/// A row of the posts table.
#[derive(Debug, Clone)]
pub struct SqlPost {
    pub id: i64,
    pub created_at: String,
    pub mblogid: String,
    pub text_raw: String,
    pub source: String,
    pub region_name: Option<String>,
    pub deleted: bool,
    pub uid: Option<i64>,
    pub pic_ids: Option<String>,
    pub pic_num: Option<i64>,
    pub retweeted_status: Option<i64>,
    pub url_struct: Option<String>,
    pub topic_struct: Option<String>,
    pub tag_struct: Option<String>,
    pub number_display_strategy: Option<String>,
    pub mix_media_info: Option<String>,
    pub visible: String,
    pub text: String,
    pub attitudes_status: i64,
    pub show_feed_repost: bool,
    pub show_feed_comment: bool,
    pub picture_viewer_sign: bool,
    pub show_picture_viewer: bool,
    pub favorited: bool,
    pub can_edit: bool,
    pub is_paid: bool,
    pub share_repost_type: Option<i64>,
    pub rid: Option<String>,
    pub pic_infos: Option<String>,
    pub cardid: Option<String>,
    pub pic_bg_new: Option<String>,
    pub mark: Option<String>,
    pub mblog_vip_type: Option<i64>,
    pub reposts_count: Option<i64>,
    pub comments_count: Option<i64>,
    pub attitudes_count: Option<i64>,
    pub mlevel: Option<i64>,
    pub content_auth: Option<i64>,
    pub is_show_bulletin: Option<i64>,
    pub repost_type: Option<i64>,
    pub edit_count: Option<i64>,
    pub mblogtype: Option<i64>,
    pub text_length: Option<i64>,
    pub is_long_text: bool,
    pub annotations: Option<String>,
    pub geo: Option<String>,
    pub pic_focus_point: Option<String>,
    pub page_info: Option<String>,
    pub title: Option<String>,
    pub continue_tag: Option<String>,
    pub comment_manage_info: Option<String>,
}

/// `r` is what decoding the object `p` as a post gives: each field
/// read from the member of its name, with the default of its type where the
/// member is missing or of another type.
pub open spec fn post_decoded(r: SqlPost, p: JsonObject) -> bool {
    &&& r.id == int_or_default(p.get("id"@))
    &&& r.created_at@ == str_or_default(p.get("created_at"@))
    &&& r.mblogid@ == str_or_default(p.get("mblogid"@))
    &&& r.text_raw@ == str_or_default(p.get("text_raw"@))
    &&& r.source@ == str_or_default(p.get("source"@))
    &&& opt_view(r.region_name) == opt_str_or_default(p.get("region_name"@))
    &&& r.deleted == bool_or_default(p.get("deleted"@))
    &&& r.uid == opt_int_or_default(p.get("uid"@))
    &&& opt_view(r.pic_ids) == opt_str_or_default(p.get("pic_ids"@))
    &&& r.pic_num == opt_int_or_default(p.get("pic_num"@))
    &&& r.retweeted_status == opt_int_or_default(p.get("retweeted_status"@))
    &&& opt_view(r.url_struct) == opt_str_or_default(p.get("url_struct"@))
    &&& opt_view(r.topic_struct) == opt_str_or_default(p.get("topic_struct"@))
    &&& opt_view(r.tag_struct) == opt_str_or_default(p.get("tag_struct"@))
    &&& opt_view(r.number_display_strategy) == opt_str_or_default(p.get("number_display_strategy"@))
    &&& opt_view(r.mix_media_info) == opt_str_or_default(p.get("mix_media_info"@))
    &&& r.visible@ == str_or_default(p.get("visible"@))
    &&& r.text@ == str_or_default(p.get("text"@))
    &&& r.attitudes_status == int_or_default(p.get("attitudes_status"@))
    &&& r.show_feed_repost == bool_or_default(p.get("show_feed_repost"@))
    &&& r.show_feed_comment == bool_or_default(p.get("show_feed_comment"@))
    &&& r.picture_viewer_sign == bool_or_default(p.get("picture_viewer_sign"@))
    &&& r.show_picture_viewer == bool_or_default(p.get("show_picture_viewer"@))
    &&& r.favorited == bool_or_default(p.get("favorited"@))
    &&& r.can_edit == bool_or_default(p.get("can_edit"@))
    &&& r.is_paid == bool_or_default(p.get("is_paid"@))
    &&& r.share_repost_type == opt_int_or_default(p.get("share_repost_type"@))
    &&& opt_view(r.rid) == opt_str_or_default(p.get("rid"@))
    &&& opt_view(r.pic_infos) == opt_str_or_default(p.get("pic_infos"@))
    &&& opt_view(r.cardid) == opt_str_or_default(p.get("cardid"@))
    &&& opt_view(r.pic_bg_new) == opt_str_or_default(p.get("pic_bg_new"@))
    &&& opt_view(r.mark) == opt_str_or_default(p.get("mark"@))
    &&& r.mblog_vip_type == opt_int_or_default(p.get("mblog_vip_type"@))
    &&& r.reposts_count == opt_int_or_default(p.get("reposts_count"@))
    &&& r.comments_count == opt_int_or_default(p.get("comments_count"@))
    &&& r.attitudes_count == opt_int_or_default(p.get("attitudes_count"@))
    &&& r.mlevel == opt_int_or_default(p.get("mlevel"@))
    &&& r.content_auth == opt_int_or_default(p.get("content_auth"@))
    &&& r.is_show_bulletin == opt_int_or_default(p.get("is_show_bulletin"@))
    &&& r.repost_type == opt_int_or_default(p.get("repost_type"@))
    &&& r.edit_count == opt_int_or_default(p.get("edit_count"@))
    &&& r.mblogtype == opt_int_or_default(p.get("mblogtype"@))
    &&& r.text_length == opt_int_or_default(p.get("text_length"@))
    &&& r.is_long_text == bool_or_default(p.get("is_long_text"@))
    &&& opt_view(r.annotations) == opt_str_or_default(p.get("annotations"@))
    &&& opt_view(r.geo) == opt_str_or_default(p.get("geo"@))
    &&& opt_view(r.pic_focus_point) == opt_str_or_default(p.get("pic_focus_point"@))
    &&& opt_view(r.page_info) == opt_str_or_default(p.get("page_info"@))
    &&& opt_view(r.title) == opt_str_or_default(p.get("title"@))
    &&& opt_view(r.continue_tag) == opt_str_or_default(p.get("continue_tag"@))
    &&& opt_view(r.comment_manage_info) == opt_str_or_default(p.get("comment_manage_info"@))
}

impl SqlPost {
    /// Decodes a post: each field is read from the member of the same name,
    /// and takes its type's default (0, the empty string, `false`, `None`)
    /// when that member is missing, `null` or of another kind.
    pub fn from_json(p: &JsonObject) -> (res: Self)
        ensures
            post_decoded(res, *p),
    {
        SqlPost {
            id: p.int_at("id"),
            created_at: p.str_at("created_at"),
            mblogid: p.str_at("mblogid"),
            text_raw: p.str_at("text_raw"),
            source: p.str_at("source"),
            region_name: p.opt_str_at("region_name"),
            deleted: p.bool_at("deleted"),
            uid: p.opt_int_at("uid"),
            pic_ids: p.opt_str_at("pic_ids"),
            pic_num: p.opt_int_at("pic_num"),
            retweeted_status: p.opt_int_at("retweeted_status"),
            url_struct: p.opt_str_at("url_struct"),
            topic_struct: p.opt_str_at("topic_struct"),
            tag_struct: p.opt_str_at("tag_struct"),
            number_display_strategy: p.opt_str_at("number_display_strategy"),
            mix_media_info: p.opt_str_at("mix_media_info"),
            visible: p.str_at("visible"),
            text: p.str_at("text"),
            attitudes_status: p.int_at("attitudes_status"),
            show_feed_repost: p.bool_at("show_feed_repost"),
            show_feed_comment: p.bool_at("show_feed_comment"),
            picture_viewer_sign: p.bool_at("picture_viewer_sign"),
            show_picture_viewer: p.bool_at("show_picture_viewer"),
            favorited: p.bool_at("favorited"),
            can_edit: p.bool_at("can_edit"),
            is_paid: p.bool_at("is_paid"),
            share_repost_type: p.opt_int_at("share_repost_type"),
            rid: p.opt_str_at("rid"),
            pic_infos: p.opt_str_at("pic_infos"),
            cardid: p.opt_str_at("cardid"),
            pic_bg_new: p.opt_str_at("pic_bg_new"),
            mark: p.opt_str_at("mark"),
            mblog_vip_type: p.opt_int_at("mblog_vip_type"),
            reposts_count: p.opt_int_at("reposts_count"),
            comments_count: p.opt_int_at("comments_count"),
            attitudes_count: p.opt_int_at("attitudes_count"),
            mlevel: p.opt_int_at("mlevel"),
            content_auth: p.opt_int_at("content_auth"),
            is_show_bulletin: p.opt_int_at("is_show_bulletin"),
            repost_type: p.opt_int_at("repost_type"),
            edit_count: p.opt_int_at("edit_count"),
            mblogtype: p.opt_int_at("mblogtype"),
            text_length: p.opt_int_at("text_length"),
            is_long_text: p.bool_at("is_long_text"),
            annotations: p.opt_str_at("annotations"),
            geo: p.opt_str_at("geo"),
            pic_focus_point: p.opt_str_at("pic_focus_point"),
            page_info: p.opt_str_at("page_info"),
            title: p.opt_str_at("title"),
            continue_tag: p.opt_str_at("continue_tag"),
            comment_manage_info: p.opt_str_at("comment_manage_info"),
        }
    }
}
/// A row of the users table.
#[derive(Debug, Clone)]
pub struct SqlUser {
    pub id: i64,
    pub profile_url: String,
    pub screen_name: String,
    pub profile_image_url: String,
    pub avatar_large: String,
    pub avatar_hd: String,
    pub planet_video: bool,
    pub v_plus: i64,
    pub pc_new: i64,
    pub verified: bool,
    pub verified_type: i64,
    pub domain: String,
    pub weihao: String,
    pub verified_type_ext: Option<i64>,
    pub follow_me: bool,
    pub following: bool,
    pub mbrank: i64,
    pub mbtype: i64,
    pub icon_list: String,
}

/// `r` is what decoding the object `p` as a user gives: each field
/// read from the member of its name, with the default of its type where the
/// member is missing or of another type.
pub open spec fn user_decoded(r: SqlUser, p: JsonObject) -> bool {
    &&& r.id == int_or_default(p.get("id"@))
    &&& r.profile_url@ == str_or_default(p.get("profile_url"@))
    &&& r.screen_name@ == str_or_default(p.get("screen_name"@))
    &&& r.profile_image_url@ == str_or_default(p.get("profile_image_url"@))
    &&& r.avatar_large@ == str_or_default(p.get("avatar_large"@))
    &&& r.avatar_hd@ == str_or_default(p.get("avatar_hd"@))
    &&& r.planet_video == bool_or_default(p.get("planet_video"@))
    &&& r.v_plus == int_or_default(p.get("v_plus"@))
    &&& r.pc_new == int_or_default(p.get("pc_new"@))
    &&& r.verified == bool_or_default(p.get("verified"@))
    &&& r.verified_type == int_or_default(p.get("verified_type"@))
    &&& r.domain@ == str_or_default(p.get("domain"@))
    &&& r.weihao@ == str_or_default(p.get("weihao"@))
    &&& r.verified_type_ext == opt_int_or_default(p.get("verified_type_ext"@))
    &&& r.follow_me == bool_or_default(p.get("follow_me"@))
    &&& r.following == bool_or_default(p.get("following"@))
    &&& r.mbrank == int_or_default(p.get("mbrank"@))
    &&& r.mbtype == int_or_default(p.get("mbtype"@))
    &&& r.icon_list@ == str_or_default(p.get("icon_list"@))
}

impl SqlUser {
    /// Decodes a user: each field is read from the member of the same name,
    /// and takes its type's default when that member is missing, `null` or
    /// of another kind.
    pub fn from_json(p: &JsonObject) -> (res: Self)
        ensures
            user_decoded(res, *p),
    {
        SqlUser {
            id: p.int_at("id"),
            profile_url: p.str_at("profile_url"),
            screen_name: p.str_at("screen_name"),
            profile_image_url: p.str_at("profile_image_url"),
            avatar_large: p.str_at("avatar_large"),
            avatar_hd: p.str_at("avatar_hd"),
            planet_video: p.bool_at("planet_video"),
            v_plus: p.int_at("v_plus"),
            pc_new: p.int_at("pc_new"),
            verified: p.bool_at("verified"),
            verified_type: p.int_at("verified_type"),
            domain: p.str_at("domain"),
            weihao: p.str_at("weihao"),
            verified_type_ext: p.opt_int_at("verified_type_ext"),
            follow_me: p.bool_at("follow_me"),
            following: p.bool_at("following"),
            mbrank: p.int_at("mbrank"),
            mbtype: p.int_at("mbtype"),
            icon_list: p.str_at("icon_list"),
        }
    }
}

} // verus!
